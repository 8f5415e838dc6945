//! Unix path model: the components that `std::path::Path` sees in a path
//! string, and the path operations the library relies on.
//!
//! A component is written as a character sequence: `/` for the root, `.` for
//! a leading current-directory component, `..` for a parent component, and
//! the name itself for a normal component (a name never contains `/`, and is
//! never `.` or `..`).
use vstd::prelude::*;
use crate::text::{chars_of, concat, join, join_all, same, seqs, split_any, split_on, string_of};

verus! {

/// The root component.
pub open spec fn root_comp() -> Seq<char> {
    seq!['/']
}

/// The current-directory component.
pub open spec fn cur_comp() -> Seq<char> {
    seq!['.']
}

/// The parent-directory component.
pub open spec fn parent_comp() -> Seq<char> {
    seq!['.', '.']
}

/// A component that names a file or directory.
pub open spec fn is_normal(c: Seq<char>) -> bool {
    c != root_comp() && c != cur_comp() && c != parent_comp()
}

/// The path starts with the root (`Path::is_absolute` on Unix).
pub open spec fn is_absolute(p: Seq<char>) -> bool {
    p.len() > 0 && p[0] == '/'
}

/// A piece between separators that yields a component: repeated separators
/// and interior `.` yield none.
pub open spec fn yields_component(seg: Seq<char>) -> bool {
    seg.len() > 0 && seg != cur_comp()
}

/// The pieces of `segs` that yield a component, in order.
pub open spec fn kept(segs: Seq<Seq<char>>) -> Seq<Seq<char>>
    decreases segs.len(),
{
    if segs.len() == 0 {
        Seq::<Seq<char>>::empty()
    } else if yields_component(segs.last()) {
        kept(segs.drop_last()).push(segs.last())
    } else {
        kept(segs.drop_last())
    }
}

/// `Path::components` on Unix: a leading root, then a leading `.` if the path
/// starts with one, then every non-empty piece between separators other than
/// `.`.
pub open spec fn components(p: Seq<char>) -> Seq<Seq<char>> {
    let segs = split_any(p, seq!['/']);
    if is_absolute(p) {
        seq![root_comp()] + kept(segs.drop_first())
    } else if segs[0] == cur_comp() {
        seq![cur_comp()] + kept(segs.drop_first())
    } else {
        kept(segs)
    }
}

/// Every component of the path is a normal name: the path is relative and
/// never steps out through `.` or `..`.
pub open spec fn only_normal(p: Seq<char>) -> bool {
    forall|i: int| 0 <= i < components(p).len() ==> is_normal(#[trigger] components(p)[i])
}

/// `PathBuf::join` on Unix: an absolute `rel` replaces `base`; otherwise a
/// separator is put between them unless `base` is empty or already ends
/// with one.
pub open spec fn join_path(base: Seq<char>, rel: Seq<char>) -> Seq<char> {
    if is_absolute(rel) {
        rel
    } else if base.len() == 0 || base.last() == '/' {
        base + rel
    } else {
        base + seq!['/'] + rel
    }
}

/// `a` is a prefix of `b`.
pub open spec fn is_prefix_of(a: Seq<Seq<char>>, b: Seq<Seq<char>>) -> bool {
    a.len() <= b.len() && b.take(a.len() as int) == a
}

/// `Path::starts_with`: whole components of `base` begin the components of `p`.
pub open spec fn path_starts_with(p: Seq<char>, base: Seq<char>) -> bool {
    is_prefix_of(components(base), components(p))
}

/// `Path == Path`: the two paths have the same components.
pub open spec fn same_path(a: Seq<char>, b: Seq<char>) -> bool {
    components(a) == components(b)
}

/// `Path::file_name`: the last component when it is a name.
pub open spec fn file_name(p: Seq<char>) -> Option<Seq<char>> {
    let c = components(p);
    if c.len() > 0 && is_normal(c.last()) {
        Some(c.last())
    } else {
        None
    }
}

/// The path is relative and never steps up through `..`: what a path must be
/// to be joined below a root and stay there lexically.
pub open spec fn stays_below(p: Seq<char>) -> bool {
    &&& !is_absolute(p)
    &&& forall|i: int| 0 <= i < components(p).len() ==> #[trigger] components(p)[i] != parent_comp()
}

/// The text of a run of components as `Path` shows it: the names joined by
/// `/`, after a leading `/` for the root.
pub open spec fn path_of(comps: Seq<Seq<char>>) -> Seq<char> {
    if comps.len() > 0 && comps[0] == root_comp() {
        seq!['/'] + join(comps.drop_first(), seq!['/'])
    } else {
        join(comps, seq!['/'])
    }
}

/// `Path::strip_prefix`: when `base` begins `p` component-wise, the
/// components of `p` after it.
pub open spec fn strip_path_prefix(p: Seq<char>, base: Seq<char>) -> Option<Seq<char>> {
    if path_starts_with(p, base) {
        Some(path_of(components(p).skip(components(base).len() as int)))
    } else {
        None
    }
}

/// One path name: not empty, without `/`, and neither `.` nor `..`; a path
/// joined with it lies one level below the base.
pub open spec fn is_single_name(seg: Seq<char>) -> bool {
    &&& seg.len() > 0
    &&& forall|i: int| 0 <= i < seg.len() ==> #[trigger] seg[i] != '/'
    &&& seg != cur_comp()
    &&& seg != parent_comp()
}

/// `p` is `base` joined with one path name.
pub open spec fn one_level_below(p: Seq<char>, base: Seq<char>) -> bool {
    exists|seg: Seq<char>| is_single_name(seg) && p == #[trigger] join_path(base, seg)
}

/// A name made of names and separating text without `/`, longer than two
/// characters, is one path name.
pub proof fn lemma_concat_name(a: Seq<char>, b: Seq<char>)
    requires
        forall|i: int| 0 <= i < a.len() ==> #[trigger] a[i] != '/',
        forall|i: int| 0 <= i < b.len() ==> #[trigger] b[i] != '/',
        a.len() + b.len() > 2,
    ensures
        is_single_name(a + b),
{
    let s = a + b;
    assert forall|i: int| 0 <= i < s.len() implies #[trigger] s[i] != '/' by {
        if i < a.len() {
            assert(s[i] == a[i]);
        } else {
            assert(s[i] == b[i - a.len()]);
        }
    }
    assert(s.len() != cur_comp().len() && s.len() != parent_comp().len());
}

/// The characters of `c` are exactly `.`.
fn is_dot(c: &Vec<char>) -> (r: bool)
    ensures
        r == (c@ == cur_comp()),
{
    let r = c.len() == 1 && c[0] == '.';
    assert(r ==> c@ =~= cur_comp());
    r
}

/// The characters of `c` are exactly `..`.
fn is_dot_dot(c: &Vec<char>) -> (r: bool)
    ensures
        r == (c@ == parent_comp()),
{
    let r = c.len() == 2 && c[0] == '.' && c[1] == '.';
    assert(r ==> c@ =~= parent_comp());
    r
}

/// The characters of `c` are exactly `/`.
fn is_slash(c: &Vec<char>) -> (r: bool)
    ensures
        r == (c@ == root_comp()),
{
    let r = c.len() == 1 && c[0] == '/';
    assert(r ==> c@ =~= root_comp());
    r
}

/// The components of a path.
pub fn path_components(p: &Vec<char>) -> (r: Vec<Vec<char>>)
    ensures
        seqs(r@) == components(p@),
{
    let mut slash: Vec<char> = Vec::new();
    slash.push('/');
    let segs = split_on(p, &slash);
    assert(slash@ =~= seq!['/']);
    let ghost s = seqs(segs@);
    let mut r: Vec<Vec<char>> = Vec::new();
    let mut start: usize = 0;
    if p.len() > 0 && p[0] == '/' {
        let mut root: Vec<char> = Vec::new();
        root.push('/');
        assert(root@ =~= root_comp());
        r.push(root);
        start = 1;
    } else if is_dot(&segs[0]) {
        let mut dot: Vec<char> = Vec::new();
        dot.push('.');
        assert(dot@ =~= cur_comp());
        r.push(dot);
        start = 1;
    }
    let ghost head = seqs(r@);
    assert(head.len() == start);
    assert(s.subrange(start as int, start as int) =~= Seq::<Seq<char>>::empty());
    let mut i: usize = start;
    while i < segs.len()
        invariant
            start <= i <= segs.len(),
            s == seqs(segs@),
            head.len() == start,
            seqs(r@) == head + kept(s.subrange(start as int, i as int)),
        decreases segs.len() - i,
    {
        assert(s.subrange(start as int, i + 1).drop_last() =~= s.subrange(start as int, i as int));
        assert(s.subrange(start as int, i + 1).last() == s[i as int]);
        let seg = &segs[i];
        if seg.len() > 0 && !is_dot(seg) {
            let ghost old_r = r@;
            let c = seg.clone();
            r.push(c);
            assert(seqs(r@) =~= seqs(old_r).push(s[i as int]));
        }
        i = i + 1;
    }
    if start == 1 {
        assert(s.subrange(1, segs.len() as int) =~= s.drop_first());
    } else {
        assert(s.subrange(0, segs.len() as int) =~= s);
        assert(head =~= Seq::<Seq<char>>::empty());
    }
    assert(seqs(r@) =~= components(p@));
    r
}

/// Whether every component of the path is a normal name.
pub fn has_only_normal_components(p: &Vec<char>) -> (r: bool)
    ensures
        r == only_normal(p@),
{
    let comps = path_components(p);
    let mut i: usize = 0;
    while i < comps.len()
        invariant
            i <= comps.len(),
            seqs(comps@) == components(p@),
            forall|j: int| 0 <= j < i ==> is_normal(#[trigger] components(p@)[j]),
        decreases comps.len() - i,
    {
        assert(components(p@)[i as int] == comps@[i as int]@);
        if is_slash(&comps[i]) || is_dot(&comps[i]) || is_dot_dot(&comps[i]) {
            return false;
        }
        i = i + 1;
    }
    true
}

/// `PathBuf::join`.
pub fn join_paths(base: &Vec<char>, rel: &Vec<char>) -> (r: Vec<char>)
    ensures
        r@ == join_path(base@, rel@),
{
    if rel.len() > 0 && rel[0] == '/' {
        rel.clone()
    } else if base.len() == 0 || base[base.len() - 1] == '/' {
        concat(base, rel)
    } else {
        let mut with_sep = base.clone();
        with_sep.push('/');
        concat(&with_sep, rel)
    }
}

/// `PathBuf::join` on strings.
pub fn join_str(base: &str, rel: &str) -> (r: String)
    ensures
        r@ == join_path(base@, rel@),
{
    let b = chars_of(base);
    let rv = chars_of(rel);
    let j = join_paths(&b, &rv);
    string_of(&j)
}

/// `Path::starts_with`.
pub fn starts_with_path(p: &Vec<char>, base: &Vec<char>) -> (r: bool)
    ensures
        r == path_starts_with(p@, base@),
{
    let pc = path_components(p);
    let bc = path_components(base);
    if bc.len() > pc.len() {
        return false;
    }
    let mut i: usize = 0;
    while i < bc.len()
        invariant
            bc.len() <= pc.len(),
            i <= bc.len(),
            seqs(pc@) == components(p@),
            seqs(bc@) == components(base@),
            forall|j: int| 0 <= j < i ==> components(p@)[j] == components(base@)[j],
        decreases bc.len() - i,
    {
        if !same(&pc[i], &bc[i]) {
            assert(components(p@).take(bc.len() as int)[i as int] != components(base@)[i as int]);
            return false;
        }
        i = i + 1;
    }
    assert(components(p@).take(bc.len() as int) =~= components(base@));
    true
}

/// Whether the path is relative and never steps up through `..`.
pub fn stays_below_root(p: &Vec<char>) -> (r: bool)
    ensures
        r == stays_below(p@),
{
    if p.len() > 0 && p[0] == '/' {
        return false;
    }
    let comps = path_components(p);
    let mut i: usize = 0;
    while i < comps.len()
        invariant
            i <= comps.len(),
            seqs(comps@) == components(p@),
            forall|j: int| 0 <= j < i ==> #[trigger] components(p@)[j] != parent_comp(),
        decreases comps.len() - i,
    {
        assert(components(p@)[i as int] == comps@[i as int]@);
        if is_dot_dot(&comps[i]) {
            return false;
        }
        i = i + 1;
    }
    true
}

/// `Path::strip_prefix`.
pub fn strip_prefix_path(p: &Vec<char>, base: &Vec<char>) -> (r: Option<Vec<char>>)
    ensures
        match r {
            Some(t) => strip_path_prefix(p@, base@) == Some(t@),
            None => strip_path_prefix(p@, base@) is None,
        },
{
    if !starts_with_path(p, base) {
        return None;
    }
    let pc = path_components(p);
    let bc = path_components(base);
    let ghost rest = components(p@).skip(bc.len() as int);
    let rooted = bc.len() < pc.len() && is_slash(&pc[bc.len()]);
    let start: usize = if rooted { bc.len() + 1 } else { bc.len() };
    assert(rooted <==> (rest.len() > 0 && rest[0] == root_comp()));
    let mut tail: Vec<Vec<char>> = Vec::new();
    let mut i: usize = start;
    while i < pc.len()
        invariant
            start <= i <= pc.len(),
            seqs(pc@) == components(p@),
            seqs(tail@) == components(p@).subrange(start as int, i as int),
        decreases pc.len() - i,
    {
        let ghost old_tail = seqs(tail@);
        tail.push(pc[i].clone());
        assert(seqs(tail@) =~= old_tail.push(pc@[i as int]@));
        assert(components(p@).subrange(start as int, i + 1) =~= components(p@).subrange(
            start as int,
            i as int,
        ).push(components(p@)[i as int]));
        i = i + 1;
    }
    let mut slash: Vec<char> = Vec::new();
    slash.push('/');
    assert(slash@ =~= seq!['/']);
    let joined = join_all(&tail, &slash);
    if rooted {
        assert(seqs(tail@) =~= rest.drop_first());
        Some(concat(&slash, &joined))
    } else {
        assert(seqs(tail@) =~= rest);
        Some(joined)
    }
}

/// `Path == Path`.
pub fn paths_equal(a: &Vec<char>, b: &Vec<char>) -> (r: bool)
    ensures
        r == same_path(a@, b@),
{
    let ab = starts_with_path(a, b);
    let ba = starts_with_path(b, a);
    assert(components(a@).take(components(a@).len() as int) =~= components(a@));
    assert(components(b@).take(components(b@).len() as int) =~= components(b@));
    ab && ba
}

/// `Path::file_name`.
pub fn path_file_name(p: &Vec<char>) -> (r: Option<Vec<char>>)
    ensures
        match r {
            Some(n) => file_name(p@) == Some(n@),
            None => file_name(p@) is None,
        },
{
    let comps = path_components(p);
    if comps.len() == 0 {
        return None;
    }
    let last = &comps[comps.len() - 1];
    assert(components(p@).last() == last@);
    if is_slash(last) || is_dot(last) || is_dot_dot(last) {
        None
    } else {
        Some(last.clone())
    }
}

/// How deep a run of components reaches below where it starts: one level
/// more for each normal name, one less for each `..`; none when a root
/// appears or the depth would fall below zero.
pub open spec fn climb_depth(comps: Seq<Seq<char>>) -> Option<nat>
    decreases comps.len(),
{
    if comps.len() == 0 {
        Some(0)
    } else {
        match climb_depth(comps.drop_last()) {
            None => None,
            Some(d) => {
                let c = comps.last();
                if c == root_comp() {
                    None
                } else if c == parent_comp() {
                    if d == 0 {
                        None
                    } else {
                        Some((d - 1) as nat)
                    }
                } else if c == cur_comp() {
                    Some(d)
                } else {
                    Some(d + 1)
                }
            },
        }
    }
}

/// The path is relative, and walking its components never climbs above
/// where it starts: joined below a directory, it names a place inside that
/// directory (lexically).
pub open spec fn never_climbs(p: Seq<char>) -> bool {
    !is_absolute(p) && climb_depth(components(p)) is Some
}

/// A path joined below `base` that stays inside `base` lexically.
pub open spec fn below_destination(t: Seq<char>, base: Seq<char>) -> bool {
    exists|rel: Seq<char>| #[trigger] never_climbs(rel) && t == join_path(base, rel)
}

proof fn lemma_normal_depth(comps: Seq<Seq<char>>)
    requires
        forall|i: int| 0 <= i < comps.len() ==> is_normal(#[trigger] comps[i]),
    ensures
        climb_depth(comps) == Some(comps.len()),
    decreases comps.len(),
{
    if comps.len() > 0 {
        assert forall|i: int| 0 <= i < comps.drop_last().len() implies is_normal(#[trigger] comps.drop_last()[i]) by {
            assert(comps.drop_last()[i] == comps[i]);
        }
        lemma_normal_depth(comps.drop_last());
        assert(is_normal(comps[comps.len() - 1]));
    }
}

/// A path whose components are all normal names never climbs.
pub proof fn lemma_only_normal_never_climbs(p: Seq<char>)
    requires
        only_normal(p),
    ensures
        never_climbs(p),
{
    lemma_normal_depth(components(p));
    if is_absolute(p) {
        assert(components(p)[0] == root_comp());
    }
}

/// Whether the path never climbs above where it starts.
pub fn never_climbs_path(p: &Vec<char>) -> (r: bool)
    ensures
        r == never_climbs(p@),
{
    if p.len() > 0 && p[0] == '/' {
        return false;
    }
    let comps = path_components(p);
    let ghost cs = seqs(comps@);
    let mut depth: usize = 0;
    let mut i: usize = 0;
    while i < comps.len()
        invariant
            i <= comps.len(),
            cs == seqs(comps@),
            cs == components(p@),
            depth <= i,
            climb_depth(cs.take(i as int)) == Some(depth as nat),
        decreases comps.len() - i,
    {
        assert(cs.take(i + 1).drop_last() =~= cs.take(i as int));
        assert(cs.take(i + 1).last() == comps@[i as int]@);
        let climbs = is_slash(&comps[i]) || (is_dot_dot(&comps[i]) && depth == 0);
        if climbs {
            assert(climb_depth(cs.take(i + 1)) is None);
            assert forall|k: int| i + 1 <= k <= cs.len() implies #[trigger] climb_depth(cs.take(k)) is None by {
                lemma_climb_none_stays(cs, i + 1, k);
            }
            assert(cs.take(cs.len() as int) =~= cs);
            return false;
        }
        if is_dot_dot(&comps[i]) {
            depth = depth - 1;
        } else if !is_dot(&comps[i]) {
            depth = depth + 1;
        }
        i = i + 1;
    }
    assert(cs.take(i as int) =~= cs);
    true
}

proof fn lemma_climb_none_stays(cs: Seq<Seq<char>>, j: int, k: int)
    requires
        0 <= j <= k <= cs.len(),
        climb_depth(cs.take(j)) is None,
    ensures
        climb_depth(cs.take(k)) is None,
    decreases k - j,
{
    if k > j {
        lemma_climb_none_stays(cs, j, k - 1);
        assert(cs.take(k).drop_last() =~= cs.take(k - 1));
    }
}

} // verus!
