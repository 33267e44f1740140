//! Endpoint navigation.
//!
//! A browser holds one textual endpoint: an HTTP URL or a local path,
//! optionally denoting a ZIP archive by its `zip` suffix.  Relative
//! navigation rewrites the endpoint; the scheme picks the provider.

use vstd::prelude::*;

use crate::ViewerError;

verus! {

// ---------------------------------------------------------------------------
// Path predicates
// ---------------------------------------------------------------------------

/// Whether `s` ends with a path separator.
pub open spec fn spec_ends_with_slash(s: Seq<char>) -> bool {
    s.len() > 0 && s[s.len() - 1] == '/'
}

/// Whether `s` ends with `zip`, the suffix that makes an endpoint denote
/// an archive.  The match is case-sensitive: a location renamed to end in
/// `ZIP` is treated as a directory.
pub open spec fn spec_ends_with_zip(s: Seq<char>) -> bool {
    s.len() >= 3 && s[s.len() - 3] == 'z' && s[s.len() - 2] == 'i' && s[s.len() - 1] == 'p'
}

/// Whether `s` starts with a path separator.
pub open spec fn spec_starts_with_slash(s: Seq<char>) -> bool {
    s.len() >= 1 && s[0] == '/'
}

/// Whether `s` starts with the four letters `http`.
pub open spec fn spec_starts_with_http(s: Seq<char>) -> bool {
    s.len() >= 4 && s[0] == 'h' && s[1] == 't' && s[2] == 't' && s[3] == 'p'
}

/// Whether `s` starts with `http://` or `https://` and is therefore
/// served by the HTTP provider.
pub open spec fn spec_is_http_url(s: Seq<char>) -> bool {
    (s.len() >= 7 && s[0] == 'h' && s[1] == 't' && s[2] == 't' && s[3] == 'p' && s[4] == ':'
        && s[5] == '/' && s[6] == '/') || (s.len() >= 8 && s[0] == 'h' && s[1] == 't' && s[2] == 't'
        && s[3] == 'p' && s[4] == 's' && s[5] == ':' && s[6] == '/' && s[7] == '/')
}

/// Whether `p` is one of the stay-put forms: empty, `.` or `./`.
pub open spec fn spec_is_noop_path(p: Seq<char>) -> bool {
    p.len() == 0 || (p.len() == 1 && p[0] == '.') || (p.len() == 2 && p[0] == '.' && p[1] == '/')
}

/// Whether `p` is the parent form `..`.
pub open spec fn spec_is_parent_path(p: Seq<char>) -> bool {
    p.len() == 2 && p[0] == '.' && p[1] == '.'
}

/// Whether `s` ends with `.parquet`, the suffix that sends a viewed file
/// to the Parquet renderer.
pub open spec fn spec_is_parquet_name(s: Seq<char>) -> bool {
    s.len() >= 8 && s[s.len() - 8] == '.' && s[s.len() - 7] == 'p' && s[s.len() - 6] == 'a'
        && s[s.len() - 5] == 'r' && s[s.len() - 4] == 'q' && s[s.len() - 3] == 'u' && s[s.len()
        - 2] == 'e' && s[s.len() - 1] == 't'
}

// ---------------------------------------------------------------------------
// Path functions
// ---------------------------------------------------------------------------

/// `e` and `p` joined: `p` appended to `e`, with a separator inserted iff
/// `e` does not already end with one; an empty `p` leaves `e` as it is.
pub open spec fn spec_full_path(e: Seq<char>, p: Seq<char>) -> Seq<char> {
    if p.len() == 0 {
        e
    } else if spec_ends_with_slash(e) {
        e + p
    } else {
        e + seq!['/'] + p
    }
}

/// The position of the last separator at or below `i`, if any.
pub open spec fn spec_last_slash(s: Seq<char>, i: int) -> Option<int>
    decreases i + 1,
{
    if i < 0 {
        None
    } else if s[i] == '/' {
        Some(i)
    } else {
        spec_last_slash(s, i - 1)
    }
}

/// The parent of `e`: its longest prefix up to but excluding the last
/// separator, one trailing separator ignored; an endpoint without a
/// separator is its own parent.
pub open spec fn spec_parent(e: Seq<char>) -> Seq<char> {
    let t = if spec_ends_with_slash(e) {
        e.drop_last()
    } else {
        e
    };
    match spec_last_slash(t, t.len() - 1) {
        Some(i) => t.subrange(0, i),
        None => e,
    }
}

/// What `change_dir` does to the endpoint `e` for the path `p`: the
/// stay-put forms keep it, `..` moves to the parent, a path starting with
/// `/` or `http` replaces it outright, and any other path extends it —
/// unless `e` denotes an archive, which refuses descent.
pub open spec fn spec_change_dir(e: Seq<char>, p: Seq<char>) -> Result<Seq<char>, ViewerError> {
    if spec_is_noop_path(p) {
        Ok(e)
    } else if spec_is_parent_path(p) {
        Ok(spec_parent(e))
    } else if spec_starts_with_slash(p) || spec_starts_with_http(p) {
        Ok(p)
    } else if spec_ends_with_zip(e) {
        Err(ViewerError::CannotDescendIntoArchive)
    } else {
        Ok(spec_full_path(e, p))
    }
}

// ---------------------------------------------------------------------------
// Executable predicates
// ---------------------------------------------------------------------------

/// Whether `s` ends with a path separator.
pub fn ends_with_slash(s: &str) -> (r: bool)
    ensures
        r == spec_ends_with_slash(s@),
{
    let n = s.unicode_len();
    n > 0 && s.get_char(n - 1) == '/'
}

/// Whether `s` ends with `zip` and so denotes an archive.
pub fn ends_with_zip(s: &str) -> (r: bool)
    ensures
        r == spec_ends_with_zip(s@),
{
    let n = s.unicode_len();
    n >= 3 && s.get_char(n - 3) == 'z' && s.get_char(n - 2) == 'i' && s.get_char(n - 1) == 'p'
}

/// Whether `s` ends with `.parquet`.
pub fn is_parquet_name(s: &str) -> (r: bool)
    ensures
        r == spec_is_parquet_name(s@),
{
    let n = s.unicode_len();
    n >= 8 && s.get_char(n - 8) == '.' && s.get_char(n - 7) == 'p' && s.get_char(n - 6) == 'a'
        && s.get_char(n - 5) == 'r' && s.get_char(n - 4) == 'q' && s.get_char(n - 3) == 'u'
        && s.get_char(n - 2) == 'e' && s.get_char(n - 1) == 't'
}

/// Whether a `cd` path replaces the endpoint outright: it starts with a
/// separator or with `http`.
pub fn starts_with_path_forms(s: &str) -> (r: bool)
    ensures
        r == (spec_starts_with_slash(s@) || spec_starts_with_http(s@)),
{
    starts_with_slash(s) || starts_with_http(s)
}

fn starts_with_slash(s: &str) -> (r: bool)
    ensures
        r == spec_starts_with_slash(s@),
{
    let n = s.unicode_len();
    n >= 1 && s.get_char(0) == '/'
}

fn starts_with_http(s: &str) -> (r: bool)
    ensures
        r == spec_starts_with_http(s@),
{
    let n = s.unicode_len();
    n >= 4 && s.get_char(0) == 'h' && s.get_char(1) == 't' && s.get_char(2) == 't' && s.get_char(3)
        == 'p'
}

/// Whether `s` starts with `http://` or `https://`.
pub fn is_http_url(s: &str) -> (r: bool)
    ensures
        r == spec_is_http_url(s@),
{
    let n = s.unicode_len();
    if n >= 7 && s.get_char(0) == 'h' && s.get_char(1) == 't' && s.get_char(2) == 't' && s.get_char(
        3,
    ) == 'p' {
        if s.get_char(4) == ':' && s.get_char(5) == '/' && s.get_char(6) == '/' {
            true
        } else {
            n >= 8 && s.get_char(4) == 's' && s.get_char(5) == ':' && s.get_char(6) == '/'
                && s.get_char(7) == '/'
        }
    } else {
        false
    }
}

/// Whether `p` is one of the stay-put forms.
pub fn is_noop_path(p: &str) -> (r: bool)
    ensures
        r == spec_is_noop_path(p@),
{
    let n = p.unicode_len();
    n == 0 || (n == 1 && p.get_char(0) == '.') || (n == 2 && p.get_char(0) == '.' && p.get_char(1)
        == '/')
}

/// Whether `p` is the parent form `..`.
pub fn is_parent_path(p: &str) -> (r: bool)
    ensures
        r == spec_is_parent_path(p@),
{
    let n = p.unicode_len();
    n == 2 && p.get_char(0) == '.' && p.get_char(1) == '.'
}

/// Join an endpoint and a relative path.
pub fn join_path(endpoint: &str, path: &str) -> (r: String)
    ensures
        r@ == spec_full_path(endpoint@, path@),
{
    if path.unicode_len() == 0 {
        return endpoint.to_owned();
    }
    if ends_with_slash(endpoint) {
        endpoint.to_owned().concat(path)
    } else {
        proof {
            reveal_strlit("/");
            assert("/"@ =~= seq!['/']);
        }
        endpoint.to_owned().concat("/").concat(path)
    }
}

/// The parent of an endpoint, per `spec_parent`.
pub fn parent_path(endpoint: &str) -> (r: String)
    ensures
        r@ == spec_parent(endpoint@),
{
    let n = endpoint.unicode_len();
    let t_len = if n > 0 && endpoint.get_char(n - 1) == '/' {
        n - 1
    } else {
        n
    };
    let ghost t = if spec_ends_with_slash(endpoint@) {
        endpoint@.drop_last()
    } else {
        endpoint@
    };
    proof {
        assert(t.len() == t_len);
        assert(forall|j: int| 0 <= j < t.len() ==> t[j] == endpoint@[j]);
    }
    let mut i: usize = t_len;
    loop
        invariant
            i <= t_len,
            t_len <= n == endpoint@.len(),
            t == (if spec_ends_with_slash(endpoint@) {
                endpoint@.drop_last()
            } else {
                endpoint@
            }),
            t.len() == t_len,
            spec_last_slash(t, t.len() - 1) == spec_last_slash(t, i as int - 1),
        decreases i,
    {
        if i == 0 {
            return endpoint.to_owned();
        }
        if endpoint.get_char(i - 1) == '/' {
            let sub = endpoint.substring_char(0, i - 1);
            proof {
                assert(t[i as int - 1] == endpoint@[i as int - 1]);
                assert(spec_last_slash(t, i as int - 1) == Some(i as int - 1));
                assert(t.subrange(0, i as int - 1) =~= endpoint@.subrange(0, i as int - 1));
            }
            return sub.to_owned();
        }
        proof {
            assert(t[i as int - 1] == endpoint@[i as int - 1]);
        }
        i = i - 1;
    }
}

// ---------------------------------------------------------------------------
// The browser
// ---------------------------------------------------------------------------

/// Which provider serves an endpoint.
#[derive(Debug, Clone, Copy, PartialEq, Eq, Structural)]
pub enum ProviderKind {
    /// The endpoint is an `http://` or `https://` URL.
    Http,
    /// Anything else is a local path.
    LocalFs,
}

/// Which listing operation `list` performs.
#[derive(Debug, Clone, Copy, PartialEq, Eq, Structural)]
pub enum ListKind {
    /// The endpoint denotes an archive: list its entries.
    Zip,
    /// The endpoint denotes a directory: list its files.
    Dir,
}

/// The provider an endpoint is served by.
pub open spec fn spec_provider_of(e: Seq<char>) -> ProviderKind {
    if spec_is_http_url(e) {
        ProviderKind::Http
    } else {
        ProviderKind::LocalFs
    }
}

/// A file browser: one mutable endpoint, rewritten by `change_dir`.
pub struct FileBrowser {
    endpoint: String,
}

impl View for FileBrowser {
    type V = Seq<char>;

    closed spec fn view(&self) -> Seq<char> {
        self.endpoint@
    }
}

impl FileBrowser {
    /// A browser at the given endpoint.
    pub fn new(endpoint: String) -> (r: Result<FileBrowser, ViewerError>)
        ensures
            r matches Ok(b) && b@ == endpoint@,
    {
        Ok(FileBrowser { endpoint })
    }

    /// The current endpoint joined with a relative path.
    pub fn get_full_path(&self, path: &str) -> (r: String)
        ensures
            r@ == spec_full_path(self@, path@),
    {
        join_path(self.endpoint.as_str(), path)
    }

    fn get_parent(&self) -> (r: String)
        ensures
            r@ == spec_parent(self@),
    {
        parent_path(self.endpoint.as_str())
    }

    /// Rewrite the endpoint for a `cd`: stay-put forms keep it, `..`
    /// moves to the parent, a path starting with `/` or `http` replaces
    /// it, any other path descends — refused when the endpoint denotes an
    /// archive, which a failed call leaves unchanged.
    pub fn change_dir(&mut self, path: &str) -> (r: Result<(), ViewerError>)
        ensures
            match r {
                Ok(_) => spec_change_dir(old(self)@, path@) == Ok::<Seq<char>, ViewerError>(
                    final(self)@,
                ),
                Err(e) => spec_change_dir(old(self)@, path@) == Err::<Seq<char>, ViewerError>(e)
                    && final(self)@ == old(self)@,
            },
    {
        if is_noop_path(path) {
            return Ok(());
        }
        if is_parent_path(path) {
            let parent = self.get_parent();
            self.endpoint = parent;
            return Ok(());
        }
        if starts_with_slash(path) || starts_with_http(path) {
            self.endpoint = path.to_owned();
            return Ok(());
        }
        if ends_with_zip(self.endpoint.as_str()) {
            return Err(ViewerError::CannotDescendIntoArchive);
        }
        let full = self.get_full_path(path);
        self.endpoint = full;
        Ok(())
    }

    /// The endpoint, verbatim.
    pub fn get_current_dir(&self) -> (r: String)
        ensures
            r@ == self@,
    {
        self.endpoint.clone()
    }

    /// Which provider serves the current endpoint.
    pub fn get_provider(&self) -> (r: ProviderKind)
        ensures
            r == spec_provider_of(self@),
    {
        if is_http_url(self.endpoint.as_str()) {
            ProviderKind::Http
        } else {
            ProviderKind::LocalFs
        }
    }

    /// Whether `list` enumerates an archive or a directory here.
    pub fn list_kind(&self) -> (r: ListKind)
        ensures
            r == (if spec_ends_with_zip(self@) {
                ListKind::Zip
            } else {
                ListKind::Dir
            }),
    {
        if ends_with_zip(self.endpoint.as_str()) {
            ListKind::Zip
        } else {
            ListKind::Dir
        }
    }
}

// ---------------------------------------------------------------------------
// Laws
// ---------------------------------------------------------------------------

proof fn lemma_last_slash_at(s: Seq<char>, k: int, i: int)
    requires
        0 <= k <= i < s.len(),
        s[k] == '/',
        forall|j: int| k < j <= i ==> s[j] != '/',
    ensures
        spec_last_slash(s, i) == Some(k),
    decreases i - k,
{
    if i > k {
        lemma_last_slash_at(s, k, i - 1);
    }
}

proof fn lemma_last_slash_range(s: Seq<char>, i: int)
    ensures
        spec_last_slash(s, i) matches Some(k) ==> 0 <= k <= i && s[k] == '/',
    decreases i + 1,
{
    if i >= 0 && s[i] != '/' {
        lemma_last_slash_range(s, i - 1);
    }
}

/// Moving up and back down returns: from an endpoint whose final
/// component is `x`, `change_dir("..")` followed by `change_dir(x)`
/// reaches the original endpoint again, up to one trailing separator.
///
/// `x` must be a plain component — nonempty, without separators, none of
/// the navigation forms, and not starting with `http` (such a component
/// would replace the endpoint outright) — and the parent must neither
/// end with a separator of its own nor denote an archive.
pub proof fn lemma_parent_then_child(pre: Seq<char>, x: Seq<char>, trailing: bool)
    requires
        x.len() > 0,
        forall|i: int| 0 <= i < x.len() ==> x[i] != '/',
        !spec_is_noop_path(x),
        !spec_is_parent_path(x),
        !spec_starts_with_http(x),
        !spec_ends_with_slash(pre),
        !spec_ends_with_zip(pre),
    ensures
        ({
            let e = if trailing {
                pre + seq!['/'] + x + seq!['/']
            } else {
                pre + seq!['/'] + x
            };
            let up = spec_change_dir(e, seq!['.', '.']);
            &&& up == Ok::<Seq<char>, ViewerError>(pre)
            &&& spec_change_dir(pre, x) == Ok::<Seq<char>, ViewerError>(pre + seq!['/'] + x)
        }),
{
    let e = if trailing {
        pre + seq!['/'] + x + seq!['/']
    } else {
        pre + seq!['/'] + x
    };
    let dotdot = seq!['.', '.'];
    assert(spec_is_parent_path(dotdot));
    assert(!spec_is_noop_path(dotdot));
    let t = if spec_ends_with_slash(e) {
        e.drop_last()
    } else {
        e
    };
    assert(spec_ends_with_slash(e) == trailing);
    assert(t =~= pre + seq!['/'] + x);
    lemma_last_slash_at(t, pre.len() as int, t.len() - 1);
    assert(t.subrange(0, pre.len() as int) =~= pre);
    assert(spec_parent(e) == pre);
    // Back down: `x` is none of the special forms and `pre` is no
    // archive, so the endpoint is extended by exactly one separator and
    // the component.
    assert(!spec_starts_with_slash(x));
    assert(spec_full_path(pre, x) == pre + seq!['/'] + x);
}

/// A path starting with `/` or `http` replaces the endpoint outright,
/// whatever the endpoint holds — even an archive.
pub proof fn lemma_absolute_replaces(e: Seq<char>, p: Seq<char>)
    requires
        spec_starts_with_slash(p) || spec_starts_with_http(p),
    ensures
        spec_change_dir(e, p) == Ok::<Seq<char>, ViewerError>(p),
{
}

/// No other form replaces the endpoint: when the path starts with
/// neither `/` nor `http`, a successful `change_dir` keeps the endpoint,
/// trims it to its parent — a prefix of it — or extends it by the path,
/// with the endpoint itself as prefix.
pub proof fn lemma_no_other_replacement(e: Seq<char>, p: Seq<char>)
    requires
        !spec_starts_with_slash(p),
        !spec_starts_with_http(p),
        spec_change_dir(e, p) is Ok,
    ensures
        ({
            let e2 = spec_change_dir(e, p).unwrap();
            ||| e2 == e
            ||| (e2 == spec_parent(e) && e2.len() <= e.len() && e2 == e.subrange(
                0,
                e2.len() as int,
            ))
            ||| (e2 == spec_full_path(e, p) && e2.len() >= e.len() && e == e2.subrange(
                0,
                e.len() as int,
            ))
        }),
{
    let e2 = spec_change_dir(e, p).unwrap();
    if spec_is_noop_path(p) {
    } else if spec_is_parent_path(p) {
        let t = if spec_ends_with_slash(e) {
            e.drop_last()
        } else {
            e
        };
        lemma_last_slash_range(t, t.len() - 1);
        match spec_last_slash(t, t.len() - 1) {
            Some(k) => {
                assert(t.subrange(0, k) =~= e.subrange(0, k));
            },
            None => {},
        }
    } else {
        assert(e2 == spec_full_path(e, p));
        assert(p.len() > 0);
        if spec_ends_with_slash(e) {
            assert(e =~= (e + p).subrange(0, e.len() as int));
        } else {
            assert(e =~= (e + seq!['/'] + p).subrange(0, e.len() as int));
        }
    }
}

/// Descending into an archive is refused: with an endpoint ending in
/// `zip` and a path that is none of the navigation forms, `change_dir`
/// fails with `CannotDescendIntoArchive`; by `change_dir`'s contract a
/// failed call leaves the endpoint unchanged.
pub proof fn lemma_zip_descent_refused(e: Seq<char>, p: Seq<char>)
    requires
        spec_ends_with_zip(e),
        p.len() > 0,
        p[0] != '/',
        p[0] != '.',
        !spec_starts_with_http(p),
    ensures
        spec_change_dir(e, p) == Err::<Seq<char>, ViewerError>(
            ViewerError::CannotDescendIntoArchive,
        ),
{
}

} // verus!
