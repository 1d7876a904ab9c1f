//! Resolution of client-supplied relative paths against the served root,
//! and the containment rule that every resolved path obeys.

use path_absolutize::Absolutize;
use vstd::prelude::*;
use crate::text::{chars_of, string_of};
use crate::types::OpError;

verus! {

/// A segment of `p` starts at `i`.
pub open spec fn segment_starts(p: Seq<char>, i: int) -> bool {
    i == 0 || p[i - 1] == '/'
}

/// The segment of `p` that starts at `i` is `.` or `..`.
pub open spec fn dot_segment_at(p: Seq<char>, i: int) -> bool {
    &&& segment_starts(p, i)
    &&& p[i] == '.'
    &&& (i + 1 == p.len() || p[i + 1] == '/' || (p[i + 1] == '.' && (i + 2 == p.len() || p[i
        + 2] == '/')))
}

/// No segment of `p` is `.` or `..`.
pub open spec fn no_dot_segments(p: Seq<char>) -> bool {
    forall|i: int| 0 <= i < p.len() ==> !#[trigger] dot_segment_at(p, i)
}

/// An absolute path with no `.` or `..` segment.
pub open spec fn is_normal_absolute(p: Seq<char>) -> bool {
    p.len() > 0 && p[0] == '/' && no_dot_segments(p)
}

/// A path fit to be the served root: normal and absolute, with no empty
/// segment and no trailing separator unless it is `/` itself.
pub open spec fn is_root_path(p: Seq<char>) -> bool {
    &&& is_normal_absolute(p)
    &&& forall|i: int| 1 <= i < p.len() && #[trigger] p[i] == '/' ==> p[i - 1] != '/'
    &&& (p.len() == 1 || p.last() != '/')
}

/// The text that starts every strict descendant of `root`.
pub open spec fn dir_prefix(root: Seq<char>) -> Seq<char> {
    if root.len() > 0 && root.last() == '/' {
        root
    } else {
        root.push('/')
    }
}

/// `p` is `root` or lies below it, segment by segment.
pub open spec fn is_within(root: Seq<char>, p: Seq<char>) -> bool {
    p == root || dir_prefix(root).is_prefix_of(p)
}

/// `p` names `root` or a descendant of it.
pub open spec fn is_inside(root: Seq<char>, p: Seq<char>) -> bool {
    is_normal_absolute(p) && is_within(root, p)
}

/// `s` without its leading separators.
pub open spec fn trim_leading_slashes(s: Seq<char>) -> Seq<char>
    decreases s.len(),
{
    if s.len() > 0 && s[0] == '/' {
        trim_leading_slashes(s.drop_first())
    } else {
        s
    }
}

/// What lexical absolutization of `path` from the directory `base` gives:
/// `None` when it fails.
pub uninterp spec fn absolutized_from(path: Seq<char>, base: Seq<char>) -> Option<Seq<char>>;

/// The verdict on a candidate path: kept when inside `root`, refused
/// otherwise.
pub open spec fn confine(root: Seq<char>, candidate: Option<Seq<char>>) -> Result<
    Seq<char>,
    OpError,
> {
    match candidate {
        Some(p) => if is_inside(root, p) {
            Ok(p)
        } else {
            Err(OpError::PathEscapesRoot)
        },
        None => Err(OpError::PathEscapesRoot),
    }
}

/// The resolution of `relative` under `root`.
pub open spec fn resolution(root: Seq<char>, relative: Seq<char>) -> Result<Seq<char>, OpError> {
    confine(root, absolutized_from(trim_leading_slashes(relative), root))
}

/// The view of a resolved path or error.
pub open spec fn path_result(r: Result<String, OpError>) -> Result<Seq<char>, OpError> {
    match r {
        Ok(s) => Ok(s@),
        Err(e) => Err(e),
    }
}

/// `name` can stand as one segment below a directory.
pub open spec fn is_plain_name(name: Seq<char>) -> bool {
    &&& name.len() > 0
    &&& forall|i: int| 0 <= i < name.len() ==> name[i] != '/' && name[i] != '\0'
    &&& name != seq!['.']
    &&& name != seq!['.', '.']
}

/// `dir` with `name` appended as its last segment.
pub open spec fn join_name(dir: Seq<char>, name: Seq<char>) -> Seq<char> {
    dir_prefix(dir) + name
}

/// The child `name` of `dir`, when `name` is one plain segment.
pub open spec fn child(dir: Seq<char>, name: Seq<char>) -> Result<Seq<char>, OpError> {
    if is_plain_name(name) {
        Ok(join_name(dir, name))
    } else {
        Err(OpError::InvalidName)
    }
}

/// The absolute, normalized directory that all operations are confined to.
pub struct ServerRoot {
    path: String,
}

impl View for ServerRoot {
    type V = Seq<char>;

    closed spec fn view(&self) -> Seq<char> {
        self.path@
    }
}

impl ServerRoot {
    #[verifier::type_invariant]
    closed spec fn inv(&self) -> bool {
        is_root_path(self.path@)
    }

    /// Takes `path` as the root when it is absolute and normalized.
    pub fn new(path: &str) -> (r: Option<ServerRoot>)
        ensures
            r is Some <==> is_root_path(path@),
            r matches Some(root) ==> root@ == path@,
    {
        let p = chars_of(path);
        if is_root_chars(&p) {
            Some(ServerRoot { path: string_of(p.as_slice()) })
        } else {
            None
        }
    }

    /// The root's text; every root is a normalized absolute path.
    pub fn as_str(&self) -> (r: &str)
        ensures
            r@ == self@,
            is_root_path(self@),
    {
        proof {
            use_type_invariant(self);
        }
        self.path.as_str()
    }
}

fn has_dot_segment(p: &Vec<char>) -> (r: bool)
    ensures
        r == !no_dot_segments(p@),
{
    let n = p.len();
    let mut i: usize = 0;
    while i < n
        invariant
            n == p@.len(),
            i <= n,
            forall|j: int| 0 <= j < i ==> !#[trigger] dot_segment_at(p@, j),
        decreases n - i,
    {
        let starts = i == 0 || p[i - 1] == '/';
        if starts && p[i] == '.' {
            if i + 1 == n || p[i + 1] == '/' {
                assert(dot_segment_at(p@, i as int));
                return true;
            }
            if p[i + 1] == '.' && (i + 2 == n || p[i + 2] == '/') {
                assert(dot_segment_at(p@, i as int));
                return true;
            }
        }
        i = i + 1;
    }
    false
}

fn is_root_chars(p: &Vec<char>) -> (r: bool)
    ensures
        r == is_root_path(p@),
{
    let n = p.len();
    if n == 0 || p[0] != '/' || has_dot_segment(p) {
        return false;
    }
    if n > 1 && p[n - 1] == '/' {
        return false;
    }
    let mut i: usize = 1;
    while i < n
        invariant
            n == p@.len(),
            1 <= i <= n,
            forall|j: int| 1 <= j < i && #[trigger] p@[j] == '/' ==> p@[j - 1] != '/',
        decreases n - i,
    {
        if p[i] == '/' && p[i - 1] == '/' {
            return false;
        }
        i = i + 1;
    }
    true
}

fn is_prefix_chars(a: &Vec<char>, b: &Vec<char>) -> (r: bool)
    ensures
        r == a@.is_prefix_of(b@),
{
    if a.len() > b.len() {
        return false;
    }
    let mut i: usize = 0;
    while i < a.len()
        invariant
            a@.len() <= b@.len(),
            i <= a@.len(),
            forall|j: int| 0 <= j < i ==> a@[j] == b@[j],
        decreases a@.len() - i,
    {
        if a[i] != b[i] {
            return false;
        }
        i = i + 1;
    }
    assert(a@ =~= b@.subrange(0, a@.len() as int));
    true
}

fn dir_prefix_chars(dir: &Vec<char>) -> (r: Vec<char>)
    ensures
        r@ == dir_prefix(dir@),
{
    let mut r = dir.clone();
    assert(r@ == dir@);
    if dir.len() == 0 || dir[dir.len() - 1] != '/' {
        r.push('/');
    }
    r
}

fn chars_equal(a: &Vec<char>, b: &Vec<char>) -> (r: bool)
    ensures
        r == (a@ == b@),
{
    if a.len() != b.len() {
        return false;
    }
    let r = is_prefix_chars(a, b);
    if r {
        assert(a@ =~= b@);
    }
    r
}

fn inside_chars(root: &Vec<char>, c: &Vec<char>) -> (r: bool)
    ensures
        r == is_inside(root@, c@),
{
    if c.len() == 0 || c[0] != '/' || has_dot_segment(c) {
        return false;
    }
    let prefix = dir_prefix_chars(root);
    chars_equal(c, root) || is_prefix_chars(&prefix, c)
}

/// Keeps `candidate` when it names the root or a descendant of it, as a
/// normalized absolute path; refuses it with `PathEscapesRoot` otherwise.
pub fn check_contained(root: &ServerRoot, candidate: &str) -> (r: Result<String, OpError>)
    ensures
        path_result(r) == confine(root@, Some(candidate@)),
{
    let c = chars_of(candidate);
    if inside_chars(&chars_of(root.as_str()), &c) {
        Ok(string_of(c.as_slice()))
    } else {
        Err(OpError::PathEscapesRoot)
    }
}

/// A path that resolution placed inside a root: textually the root or one
/// of its descendants, with no `.` or `..` segment. It remembers the root
/// and the client-supplied text it was resolved from.
#[derive(Debug)]
pub struct ResolvedPath {
    root: String,
    path: String,
    relative: String,
}

impl View for ResolvedPath {
    type V = Seq<char>;

    closed spec fn view(&self) -> Seq<char> {
        self.path@
    }
}

impl ResolvedPath {
    #[verifier::type_invariant]
    closed spec fn inv(&self) -> bool {
        is_root_path(self.root@) && is_inside(self.root@, self.path@)
    }

    /// The root the path lies in.
    pub closed spec fn root(&self) -> Seq<char> {
        self.root@
    }

    /// The client-supplied text the path was resolved from.
    pub closed spec fn relative(&self) -> Seq<char> {
        self.relative@
    }

    /// The path's text; it lies inside its root.
    pub fn as_str(&self) -> (r: &str)
        ensures
            r@ == self@,
            is_root_path(self.root()),
            is_inside(self.root(), self@),
    {
        proof {
            use_type_invariant(self);
        }
        self.path.as_str()
    }

    fn root_str(&self) -> (r: &str)
        ensures
            r@ == self.root(),
            is_root_path(self.root()),
            is_inside(self.root(), self@),
    {
        proof {
            use_type_invariant(self);
        }
        self.root.as_str()
    }

    /// The client-supplied text the path was resolved from.
    pub fn relative_str(&self) -> (r: &str)
        ensures
            r@ == self.relative(),
    {
        self.relative.as_str()
    }

    /// A second value of the same path.
    pub fn duplicate(&self) -> (r: ResolvedPath)
        ensures
            r@ == self@,
            r.root() == self.root(),
            r.relative() == self.relative(),
    {
        let root = copy_str(self.root_str());
        let path = copy_str(self.as_str());
        let relative = copy_str(self.relative_str());
        ResolvedPath { root, path, relative }
    }

    /// The child `name` of this path, when `name` is one plain segment;
    /// it lies inside the same root.
    pub fn child(&self, name: &str) -> (r: Result<ResolvedPath, OpError>)
        ensures
            match r {
                Ok(c) => child(self@, name@) == Ok::<Seq<char>, OpError>(c@) && c.root()
                    == self.root() && c.relative() == join_name(self.relative(), name@),
                Err(e) => child(self@, name@) == Err::<Seq<char>, OpError>(e),
            },
    {
        let root = copy_str(self.root_str());
        let path = child_path(self.as_str(), name)?;
        proof {
            lemma_child_is_contained(self.root(), self@, name@);
        }
        let mut rel = dir_prefix_chars(&chars_of(self.relative_str()));
        let mut n = chars_of(name);
        rel.append(&mut n);
        Ok(ResolvedPath { root, path, relative: string_of(rel.as_slice()) })
    }
}

fn copy_str(s: &str) -> (r: String)
    ensures
        r@ == s@,
{
    string_of(chars_of(s).as_slice())
}

/// The view of a resolution's result.
pub open spec fn resolved_result(r: Result<ResolvedPath, OpError>) -> Result<Seq<char>, OpError> {
    match r {
        Ok(p) => Ok(p@),
        Err(e) => Err(e),
    }
}

/// Where the file system was examined: `existing` is an ancestor of `target`
/// (or `target` itself) inside the root, and `canonical`, its location with
/// every symbolic link followed, is inside the root too.
pub open spec fn confirmed_on_disk(
    root: Seq<char>,
    target: Seq<char>,
    existing: Seq<char>,
    canonical: Seq<char>,
) -> bool {
    is_inside(root, existing) && is_within(existing, target) && is_inside(root, canonical)
}

/// A resolved path whose nearest existing ancestor, with its symbolic links
/// followed, was found inside the root: the operations act only on these.
#[derive(Debug)]
pub struct ConfinedPath {
    target: ResolvedPath,
    canonical: String,
}

impl View for ConfinedPath {
    type V = Seq<char>;

    closed spec fn view(&self) -> Seq<char> {
        self.target@
    }
}

impl ConfinedPath {
    #[verifier::type_invariant]
    closed spec fn inv(&self) -> bool {
        is_inside(self.target.root(), self.canonical@)
    }

    /// The root the path lies in.
    pub closed spec fn root(&self) -> Seq<char> {
        self.target.root()
    }

    /// The client-supplied text the path was resolved from.
    pub closed spec fn relative(&self) -> Seq<char> {
        self.target.relative()
    }

    /// The path's text; it lies inside its root.
    pub fn as_str(&self) -> (r: &str)
        ensures
            r@ == self@,
            is_inside(self.root(), self@),
    {
        self.target.as_str()
    }

    /// The client-supplied text the path was resolved from.
    pub fn relative_str(&self) -> (r: &str)
        ensures
            r@ == self.relative(),
    {
        self.target.relative_str()
    }

    /// The path, as resolved.
    pub fn resolved(&self) -> (r: &ResolvedPath)
        ensures
            r@ == self@,
            r.root() == self.root(),
            r.relative() == self.relative(),
    {
        &self.target
    }
}

/// Confirms `target` on disk: `existing` is the nearest ancestor of it (or
/// it itself) that exists, and `canonical` is what the file system gives as
/// that ancestor's location with symbolic links followed. Refused with
/// `PathEscapesRoot` unless both lie inside the root and `existing` is an
/// ancestor of `target`.
pub fn confirm_on_disk(target: ResolvedPath, existing: &str, canonical: &str) -> (r: Result<
    ConfinedPath,
    OpError,
>)
    ensures
        r is Ok <==> confirmed_on_disk(target.root(), target@, existing@, canonical@),
        r matches Ok(c) ==> c@ == target@ && c.root() == target.root() && c.relative()
            == target.relative(),
        r matches Err(e) ==> e == OpError::PathEscapesRoot,
{
    let root = chars_of(target.root_str());
    let t = chars_of(target.as_str());
    let e = chars_of(existing);
    let c = chars_of(canonical);
    let within = chars_equal(&t, &e) || is_prefix_chars(&dir_prefix_chars(&e), &t);
    if inside_chars(&root, &e) && within && inside_chars(&root, &c) {
        Ok(ConfinedPath { target, canonical: string_of(c.as_slice()) })
    } else {
        Err(OpError::PathEscapesRoot)
    }
}

/// The index of the last separator of `p`; -1 when it has none.
pub open spec fn last_slash(p: Seq<char>) -> int
    decreases p.len(),
{
    if p.len() == 0 {
        -1
    } else if p.last() == '/' {
        p.len() - 1
    } else {
        last_slash(p.drop_last())
    }
}

/// The text of the directory holding `p`.
pub open spec fn parent_text(p: Seq<char>) -> Seq<char> {
    if last_slash(p) <= 0 {
        seq!['/']
    } else {
        p.subrange(0, last_slash(p))
    }
}

proof fn lemma_last_slash(p: Seq<char>, k: int)
    requires
        -1 <= k < p.len(),
        k >= 0 ==> p[k] == '/',
        forall|j: int| k < j < p.len() ==> p[j] != '/',
    ensures
        last_slash(p) == k,
    decreases p.len(),
{
    if p.len() > 0 && p.len() - 1 != k {
        lemma_last_slash(p.drop_last(), k);
    }
}

/// The next place to examine when looking, from `current` upwards, for the
/// nearest existing ancestor of `target`: the directory holding `current`,
/// or `None` once `current` is the root (or `/`), where the search stops.
pub fn next_ancestor(target: &ResolvedPath, current: &str) -> (r: Option<String>)
    ensures
        r is None <==> (current@ == target.root() || current@.len() <= 1),
        r matches Some(s) ==> s@ == parent_text(current@),
{
    let c = chars_of(current);
    let root = chars_of(target.root_str());
    if c.len() <= 1 || chars_equal(&c, &root) {
        return None;
    }
    let mut k: usize = c.len();
    while k > 0 && c[k - 1] != '/'
        invariant
            k <= c@.len(),
            forall|j: int| k <= j < c@.len() ==> c@[j] != '/',
        decreases k,
    {
        k = k - 1;
    }
    proof {
        lemma_last_slash(c@, k - 1);
    }
    if k <= 1 {
        let mut out: Vec<char> = Vec::new();
        out.push('/');
        assert(out@ =~= seq!['/']);
        Some(string_of(out.as_slice()))
    } else {
        Some(string_of(vstd::slice::slice_subrange(c.as_slice(), 0, k - 1)))
    }
}

proof fn lemma_trim_leading(s: Seq<char>, k: int)
    requires
        0 <= k <= s.len(),
        forall|j: int| 0 <= j < k ==> s[j] == '/',
        k == s.len() || s[k] != '/',
    ensures
        trim_leading_slashes(s) == s.subrange(k, s.len() as int),
    decreases k,
{
    if k == 0 {
        assert(s.subrange(0, s.len() as int) =~= s);
    } else {
        assert(s.drop_first().subrange(k - 1, s.len() - 1) =~= s.subrange(k, s.len() as int));
        lemma_trim_leading(s.drop_first(), k - 1);
    }
}

/// `s` without its leading separators.
pub fn trim_slashes(s: &str) -> (r: String)
    ensures
        r@ == trim_leading_slashes(s@),
{
    let c = chars_of(s);
    let mut k: usize = 0;
    while k < c.len() && c[k] == '/'
        invariant
            k <= c@.len(),
            forall|j: int| 0 <= j < k ==> c@[j] == '/',
        decreases c@.len() - k,
    {
        k = k + 1;
    }
    proof {
        lemma_trim_leading(c@, k as int);
    }
    string_of(vstd::slice::slice_subrange(c.as_slice(), k, c.len()))
}

/// Relies on `path_absolutize::Absolutize::absolutize_from`: a path is read
/// from `base` when relative, and its `.` and `..` components are removed
/// lexically; the outcome is a function of the two arguments alone. The
/// base is a normalized absolute path: with an empty or relative base a
/// leading `..` leaves nothing to build the result from, and the call panics.
#[verifier::external_body]
fn absolutize_from(path: &str, base: &str) -> (r: Option<String>)
    requires
        is_root_path(base@),
    ensures
        r matches Some(s) ==> absolutized_from(path@, base@) == Some(s@),
        r is None ==> absolutized_from(path@, base@) is None,
{
    match std::path::Path::new(path).absolutize_from(base) {
        Ok(p) => Some(p.to_string_lossy().into_owned()),
        Err(_) => None,
    }
}

/// Resolves a client-supplied `relative` path under `root`: its leading
/// separators are dropped, it is read from the root with `.` and `..`
/// removed, and the result is kept only when it stays inside the root.
pub fn resolve(root: &ServerRoot, relative: &str) -> (r: Result<ResolvedPath, OpError>)
    ensures
        resolved_result(r) == resolution(root@, relative@),
        r matches Ok(p) ==> p.root() == root@ && p.relative() == relative@,
{
    let trimmed = trim_slashes(relative);
    match absolutize_from(trimmed.as_str(), root.as_str()) {
        Some(abs) => {
            let path = check_contained(root, abs.as_str())?;
            Ok(ResolvedPath { root: copy_str(root.as_str()), path, relative: copy_str(relative) })
        },
        None => Err(OpError::PathEscapesRoot),
    }
}

/// Appends `name` to the directory `dir` as one segment; refuses a name
/// that is empty, holds a separator or a NUL, or is `.` or `..`.
pub fn child_path(dir: &str, name: &str) -> (r: Result<String, OpError>)
    ensures
        path_result(r) == child(dir@, name@),
{
    let n = chars_of(name);
    let len = n.len();
    if len == 0 || (len == 1 && n[0] == '.') || (len == 2 && n[0] == '.' && n[1] == '.') {
        assert(!is_plain_name(n@)) by {
            if len == 1 {
                assert(n@ =~= seq!['.']);
            }
            if len == 2 {
                assert(n@ =~= seq!['.', '.']);
            }
        }
        return Err(OpError::InvalidName);
    }
    let mut i: usize = 0;
    while i < len
        invariant
            n@ == name@,
            len == n@.len(),
            i <= len,
            forall|j: int| 0 <= j < i ==> n@[j] != '/' && n@[j] != '\0',
        decreases len - i,
    {
        if n[i] == '/' || n[i] == '\0' {
            assert(!is_plain_name(n@)) by {
                assert(n@[i as int] == '/' || n@[i as int] == '\0');
            }
            return Err(OpError::InvalidName);
        }
        i = i + 1;
    }
    assert(n@ != seq!['.']) by {
        if n@.len() == 1 {
            assert(n@[0] != '.');
        }
    }
    assert(n@ != seq!['.', '.']) by {
        if n@.len() == 2 {
            assert(!(n@[0] == '.' && n@[1] == '.'));
        }
    }
    let mut out = dir_prefix_chars(&chars_of(dir));
    let mut k: usize = 0;
    let ghost start = out@;
    while k < len
        invariant
            len == n@.len(),
            k <= len,
            out@ == start + n@.subrange(0, k as int),
        decreases len - k,
    {
        out.push(n[k]);
        k = k + 1;
        assert(out@ =~= start + n@.subrange(0, k as int));
    }
    assert(n@.subrange(0, len as int) =~= n@);
    Ok(string_of(out.as_slice()))
}

/// Containment: whatever `relative` holds, `..` segments included,
/// resolving it under a root yields the root or one of its descendants, as a
/// normalized absolute path, or is refused with `PathEscapesRoot`; never a
/// path outside the root.
pub proof fn lemma_resolution_is_contained(root: Seq<char>, relative: Seq<char>)
    requires
        is_root_path(root),
    ensures
        match resolution(root, relative) {
            Ok(p) => is_inside(root, p),
            Err(e) => e == OpError::PathEscapesRoot,
        },
{
}

/// A plain name appended to a directory inside the root names a path that
/// is still inside the root.
pub proof fn lemma_child_is_contained(root: Seq<char>, dir: Seq<char>, name: Seq<char>)
    requires
        is_root_path(root),
        is_inside(root, dir),
        is_plain_name(name),
    ensures
        child(dir, name) == Ok::<Seq<char>, OpError>(join_name(dir, name)),
        is_inside(root, join_name(dir, name)),
{
    let d = dir_prefix(dir);
    let j = join_name(dir, name);
    assert(d.last() == '/');
    assert(dir.is_prefix_of(d));
    assert(d.is_prefix_of(j));
    if dir != root {
        assert(dir_prefix(root).is_prefix_of(dir));
    }
    assert(dir_prefix(root).is_prefix_of(j)) by {
        if dir == root {
            assert(dir_prefix(root) == d);
        }
        let k = dir_prefix(root).len() as int;
        assert forall|x: int| 0 <= x < k implies #[trigger] j[x] == dir_prefix(root)[x] by {
            if dir != root {
                assert(dir[x] == dir_prefix(root)[x]);
            }
        }
    }
    assert forall|i: int| 0 <= i < j.len() implies !#[trigger] dot_segment_at(j, i) by {
        if i < dir.len() {
            assert(j[i] == dir[i]);
            if i > 0 {
                assert(j[i - 1] == dir[i - 1]);
            }
            if i + 1 < dir.len() {
                assert(j[i + 1] == dir[i + 1]);
            }
            if i + 2 < dir.len() {
                assert(j[i + 2] == dir[i + 2]);
            }
            if i + 1 == dir.len() && d.len() > dir.len() {
                assert(j[i + 1] == '/');
            }
            if i + 2 == dir.len() && d.len() > dir.len() {
                assert(j[i + 2] == '/');
            }
            if i + 1 == dir.len() && d.len() == dir.len() {
                assert(dir[i] == '/');
            }
            if i + 2 == dir.len() && d.len() == dir.len() {
                assert(dir[i + 1] == '/');
            }
            assert(!dot_segment_at(dir, i));
        } else if i < d.len() {
            assert(j[i] == '/');
        } else {
            let m = i - d.len();
            assert(j[i] == name[m]);
            if m > 0 {
                assert(j[i - 1] == name[m - 1]);
            } else {
                if name[0] == '.' {
                    if name.len() == 1 {
                        assert(name =~= seq!['.']);
                    } else {
                        assert(j[i + 1] == name[1]);
                        if name[1] == '.' {
                            if name.len() == 2 {
                                assert(name =~= seq!['.', '.']);
                            } else {
                                assert(j[i + 2] == name[2]);
                            }
                        }
                    }
                }
            }
        }
    }
}

} // verus!
