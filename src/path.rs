//! Paths as strings, by the rules of `/` paths and of Windows paths, and the
//! handle to a manifest file. Of Windows prefixes only drives (`C:`) and
//! network shares are modelled; a drive-relative path such as `C:x` is read
//! as an ordinary relative path.
use vstd::prelude::*;
use crate::value::str_eq;
use crate::error::ManifestError;

verus! {

/// File name that every manifest path must end in.
pub const MANIFEST_FILE: &'static str = "Cargo.toml";

pub open spec fn manifest_file() -> Seq<char> {
    seq!['C', 'a', 'r', 'g', 'o', '.', 't', 'o', 'm', 'l']
}

/// `c` separates path components: `/`, and on Windows also `\\`.
pub open spec fn is_sep(windows: bool, c: char) -> bool {
    c == '/' || (windows && c == '\\')
}

/// `s` is a Windows drive such as `C:`.
pub open spec fn is_drive(s: Seq<char>) -> bool {
    s.len() == 2 && (('a' <= s[0] && s[0] <= 'z') || ('A' <= s[0] && s[0] <= 'Z')) && s[1] == ':'
}

/// `p` without trailing separators and trailing `.` components; a lone `.`
/// becomes empty.
pub open spec fn trimmed(w: bool, p: Seq<char>) -> Seq<char>
    decreases p.len(),
{
    if p.len() == 0 {
        p
    } else if is_sep(w, p.last()) {
        trimmed(w, p.drop_last())
    } else if p.len() == 1 && p[0] == '.' {
        Seq::empty()
    } else if p.len() >= 2 && p.last() == '.' && is_sep(w, p[p.len() - 2]) {
        trimmed(w, p.drop_last())
    } else {
        p
    }
}

/// The characters after the last separator of `p`.
pub open spec fn last_segment(w: bool, p: Seq<char>) -> Seq<char>
    decreases p.len(),
{
    if p.len() == 0 || is_sep(w, p.last()) {
        Seq::empty()
    } else {
        last_segment(w, p.drop_last()).push(p.last())
    }
}

/// The final component of a path; none for a path that is empty, the root, or
/// ends in `..`.
pub open spec fn file_name(w: bool, p: Seq<char>) -> Option<Seq<char>> {
    let s = last_segment(w, trimmed(w, p));
    if s.len() == 0 || s == seq!['.', '.'] {
        None
    } else {
        Some(s)
    }
}

/// `p` without trailing separators and trailing `.` components that follow a
/// separator; a lone `.` stays.
pub open spec fn trimmed_dir(w: bool, p: Seq<char>) -> Seq<char>
    decreases p.len(),
{
    if p.len() > 0 && is_sep(w, p.last()) {
        trimmed_dir(w, p.drop_last())
    } else if p.len() >= 2 && p.last() == '.' && is_sep(w, p[p.len() - 2]) {
        trimmed_dir(w, p.drop_last())
    } else {
        p
    }
}

/// `p` without its last segment and without the separators and `.`
/// components that end what is left.
pub open spec fn before_last_segment(w: bool, p: Seq<char>) -> Seq<char> {
    trimmed_dir(w, p.take(p.len() - last_segment(w, p).len()))
}

/// The directory that holds the file at `p`: none for the bare manifest file
/// name, for an empty path and for the root; the empty path for a relative
/// path of a single component, such as `.`; the root, or on Windows the
/// drive's root, for a file there.
pub open spec fn directory_of(w: bool, p: Seq<char>) -> Option<Seq<char>> {
    let t = trimmed(w, p);
    let b = before_last_segment(w, t);
    if t.len() == 0 {
        if p.len() > 0 && !is_sep(w, p[0]) {
            Some(Seq::empty())
        } else {
            None
        }
    } else if t == manifest_file() || last_segment(w, t).len() == 0 {
        None
    } else if last_segment(w, t).len() == t.len() {
        Some(Seq::empty())
    } else if b.len() == 0 {
        Some(seq![t[0]])
    } else if w && is_drive(b) && is_sep(w, t[2]) {
        Some(t.take(3))
    } else {
        Some(b)
    }
}

/// A path is absolute when it starts at the root.
pub open spec fn is_absolute(p: Seq<char>) -> bool {
    p.len() > 0 && p[0] == '/'
}

/// `p` appended to the directory `dir`, with one separator between them;
/// an absolute `p` replaces `dir`.
pub open spec fn joined(dir: Seq<char>, p: Seq<char>) -> Seq<char> {
    if is_absolute(p) {
        p
    } else if dir.len() == 0 || dir.last() == '/' {
        dir + p
    } else {
        dir + seq!['/'] + p
    }
}

/// `p` appended to the directory `dir`; an absolute `p` as it is.
pub fn join(dir: &str, p: &str) -> (r: String)
    ensures
        r@ == joined(dir@, p@),
{
    if p.unicode_len() > 0 && p.get_char(0) == '/' {
        return p.to_owned();
    }
    let n = dir.unicode_len();
    let r = dir.to_owned();
    if n == 0 || dir.get_char(n - 1) == '/' {
        r.concat(p)
    } else {
        proof {
            reveal_strlit("/");
        }
        let r = r.concat("/");
        r.concat(p)
    }
}

/// `p` with each `/` turned into the Windows separator `\\`.
pub open spec fn backslashed(p: Seq<char>) -> Seq<char> {
    Seq::new(p.len(), |i: int| if p[i] == '/' { '\\' } else { p[i] })
}

/// A Windows path is absolute when it starts with a drive and a separator
/// (`C:\\`) or with two separators (a network share).
pub open spec fn is_absolute_windows(p: Seq<char>) -> bool {
    ||| p.len() >= 3 && (('a' <= p[0] && p[0] <= 'z') || ('A' <= p[0] && p[0] <= 'Z')) && p[1] == ':'
        && (p[2] == '\\' || p[2] == '/')
    ||| p.len() >= 2 && (p[0] == '\\' || p[0] == '/') && (p[1] == '\\' || p[1] == '/')
}

/// `p` appended to the Windows directory `dir`, with one separator between
/// them; an absolute `p` replaces `dir`. Unlike std's join, a rooted `p`
/// without a drive (`\\x`) and a drive-relative `p` (`C:x`) are appended too.
pub open spec fn joined_windows(dir: Seq<char>, p: Seq<char>) -> Seq<char> {
    if is_absolute_windows(p) {
        p
    } else if dir.len() == 0 || dir.last() == '\\' || dir.last() == '/' {
        dir + p
    } else {
        dir + seq!['\\'] + p
    }
}

/// `p` appended to `dir` by the rules of Windows paths or of `/` paths.
pub open spec fn joined_on(windows: bool, dir: Seq<char>, p: Seq<char>) -> Seq<char> {
    if windows {
        joined_windows(dir, p)
    } else {
        joined(dir, p)
    }
}

/// A path value of a manifest, which is written with `/`, anchored at `dir`.
/// An absolute path stays as it is. On Windows the value is read with its
/// `/` turned into `\\`, both to tell whether it is absolute and to join it.
pub open spec fn anchored(windows: bool, dir: Seq<char>, p: Seq<char>) -> Seq<char> {
    if windows {
        if is_absolute_windows(backslashed(p)) {
            p
        } else {
            joined_windows(dir, backslashed(p))
        }
    } else {
        joined(dir, p)
    }
}

/// `p` with each `/` turned into `\\`.
pub fn backslash(p: &str) -> (r: String)
    ensures
        r@ == backslashed(p@),
{
    let n = p.unicode_len();
    let mut r = String::new();
    let mut i: usize = 0;
    proof {
        reveal_strlit("\\");
    }
    while i < n
        invariant
            n == p@.len(),
            0 <= i <= n,
            r@ == backslashed(p@.take(i as int)),
        decreases n - i,
    {
        let c = p.get_char(i);
        proof {
            reveal_strlit("\\");
        }
        if c == '/' {
            r.append("\\");
        } else {
            r.append(p.substring_char(i, i + 1));
        }
        assert(r@ =~= backslashed(p@.take(i + 1)));
        i = i + 1;
    }
    assert(p@.take(n as int) =~= p@);
    r
}

/// Whether `p` is an absolute Windows path.
pub fn absolute_windows(p: &str) -> (r: bool)
    ensures
        r == is_absolute_windows(p@),
{
    let n = p.unicode_len();
    if n >= 3 {
        let c = p.get_char(0);
        let d = p.get_char(2);
        if (('a' <= c && c <= 'z') || ('A' <= c && c <= 'Z')) && p.get_char(1) == ':' && (d == '\\' || d == '/') {
            return true;
        }
    }
    if n >= 2 {
        let a = p.get_char(0);
        let b = p.get_char(1);
        return (a == '\\' || a == '/') && (b == '\\' || b == '/');
    }
    false
}

/// `p` appended to the directory `dir` by the rules of Windows paths or of
/// `/` paths.
pub fn join_on(windows: bool, dir: &str, p: &str) -> (r: String)
    ensures
        r@ == joined_on(windows, dir@, p@),
{
    if !windows {
        return join(dir, p);
    }
    if absolute_windows(p) {
        return p.to_owned();
    }
    let n = dir.unicode_len();
    let r = dir.to_owned();
    if n == 0 || dir.get_char(n - 1) == '\\' || dir.get_char(n - 1) == '/' {
        r.concat(p)
    } else {
        proof {
            reveal_strlit("\\");
        }
        let r = r.concat("\\");
        r.concat(p)
    }
}

/// Whether `c` separates path components.
fn sep(w: bool, c: char) -> (r: bool)
    ensures
        r == is_sep(w, c),
{
    c == '/' || (w && c == '\\')
}

/// Length of `trimmed(w, p)`.
fn trimmed_len(w: bool, p: &str) -> (n: usize)
    ensures
        n <= p@.len(),
        trimmed(w, p@) == p@.take(n as int),
{
    let mut n = p.unicode_len();
    assert(p@.take(n as int) =~= p@);
    while n > 0
        invariant
            n <= p@.len(),
            trimmed(w, p@) == trimmed(w, p@.take(n as int)),
        decreases n,
    {
        let t = Ghost(p@.take(n as int));
        assert(t@.drop_last() =~= p@.take(n - 1));
        let c = p.get_char(n - 1);
        if sep(w, c) {
            n = n - 1;
        } else if n == 1 && c == '.' {
            n = 0;
            assert(p@.take(0) =~= Seq::<char>::empty());
        } else if n >= 2 && c == '.' && sep(w, p.get_char(n - 2)) {
            n = n - 1;
        } else {
            return n;
        }
    }
    n
}

/// Position where the last segment of `p.take(n)` starts.
fn last_segment_start(w: bool, p: &str, n: usize) -> (j: usize)
    requires
        n <= p@.len(),
    ensures
        j <= n,
        last_segment(w, p@.take(n as int)) == p@.subrange(j as int, n as int),
{
    let mut j = n;
    assert(p@.subrange(j as int, n as int) =~= Seq::<char>::empty());
    while j > 0 && !sep(w, p.get_char(j - 1))
        invariant
            j <= n <= p@.len(),
            last_segment(w, p@.take(n as int)) == last_segment(w, p@.take(j as int)) + p@.subrange(j as int, n as int),
        decreases j,
    {
        assert(p@.take(j as int).drop_last() =~= p@.take(j - 1));
        assert(p@.subrange(j - 1, n as int) =~= seq![p@[j - 1]] + p@.subrange(j as int, n as int));
        assert(last_segment(w, p@.take(j - 1)).push(p@[j - 1]) =~= last_segment(w, p@.take(j - 1)) + seq![p@[j - 1]]);
        j = j - 1;
    }
    assert(last_segment(w, p@.take(j as int)) =~= Seq::<char>::empty());
    assert(Seq::<char>::empty() + p@.subrange(j as int, n as int) =~= p@.subrange(j as int, n as int));
    j
}

} // verus!

verus! {

/// Location of a manifest file: its file name, when it has one, is the
/// manifest file name. On Windows `\\` separates components too.
#[derive(Debug)]
pub struct ManifestPath {
    path: String,
    windows: bool,
}

/// The paths that a manifest path may hold.
pub open spec fn valid_manifest_path(w: bool, p: Seq<char>) -> bool {
    file_name(w, p) is None || file_name(w, p) == Some(manifest_file())
}

impl View for ManifestPath {
    type V = Seq<char>;

    closed spec fn view(&self) -> Seq<char> {
        self.path@
    }
}

impl ManifestPath {
    /// Whether the path follows Windows rules.
    pub closed spec fn is_windows(&self) -> bool {
        self.windows
    }

    pub closed spec fn wf(&self) -> bool {
        valid_manifest_path(self.windows, self.path@)
    }

    /// A handle to the manifest at `path`, read by Windows rules when
    /// `windows` holds; refused when the path names another file.
    pub fn new(path: &str, windows: bool) -> (r: Result<ManifestPath, ManifestError>)
        ensures
            valid_manifest_path(windows, path@) <==> r is Ok,
            r is Ok ==> r->Ok_0@ == path@ && r->Ok_0.is_windows() == windows && r->Ok_0.wf(),
            r is Err ==> r->Err_0 is InvalidManifestName,
    {
        let n = trimmed_len(windows, path);
        let j = last_segment_start(windows, path, n);
        let seg = path.substring_char(j, n);
        proof {
            reveal_strlit("Cargo.toml");
            reveal_strlit("..");
            assert(MANIFEST_FILE@ =~= manifest_file());
            assert(seg@ == last_segment(windows, trimmed(windows, path@)));
            assert(("..")@ =~= seq!['.', '.']);
        }
        if n == j || str_eq(seg, "..") || str_eq(seg, MANIFEST_FILE) {
            Ok(ManifestPath { path: path.to_owned(), windows })
        } else {
            Err(ManifestError::InvalidManifestName)
        }
    }

    /// The path as written.
    pub fn as_str(&self) -> (r: &str)
        ensures
            r@ == self@,
    {
        self.path.as_str()
    }

    /// Whether the path follows Windows rules.
    pub fn windows(&self) -> (r: bool)
        ensures
            r == self.is_windows(),
    {
        self.windows
    }

    /// The directory that holds the manifest; none when the path is just the
    /// manifest file name, which stands for the working directory.
    pub fn directory(&self) -> (r: Option<String>)
        ensures
            match directory_of(self.is_windows(), self@) {
                None => r is None,
                Some(d) => r is Some && r->Some_0@ == d,
            },
    {
        let w = self.windows;
        let p = self.path.as_str();
        let n = trimmed_len(w, p);
        let j = last_segment_start(w, p, n);
        let t = Ghost(p@.take(n as int));
        assert(t@.take(t@.len() - last_segment(w, t@).len()) =~= p@.take(j as int));
        proof {
            reveal_strlit("Cargo.toml");
            assert(MANIFEST_FILE@ =~= manifest_file());
        }
        if n == 0 {
            if p.unicode_len() > 0 && !sep(w, p.get_char(0)) {
                return Some(String::new());
            }
            return None;
        }
        if j == n || str_eq(p.substring_char(0, n), MANIFEST_FILE) {
            assert(p@.subrange(0, n as int) =~= t@);
            return None;
        }
        assert(p@.subrange(0, n as int) =~= t@);
        if j == 0 {
            assert(p@.subrange(0, n as int) =~= last_segment(w, t@));
            return Some(String::new());
        }
        let mut m = j;
        while m > 0 && (sep(w, p.get_char(m - 1)) || (m >= 2 && p.get_char(m - 1) == '.' && sep(w, p.get_char(m - 2))))
            invariant
                m <= j <= p@.len(),
                trimmed_dir(w, p@.take(j as int)) == trimmed_dir(w, p@.take(m as int)),
            decreases m,
        {
            assert(p@.take(m as int).drop_last() =~= p@.take(m - 1));
            m = m - 1;
        }
        assert(trimmed_dir(w, p@.take(m as int)) == p@.take(m as int));
        if m == 0 {
            assert(p@.take(0) =~= Seq::<char>::empty());
            let r = p.substring_char(0, 1).to_owned();
            assert(r@ =~= seq![t@[0]]);
            return Some(r);
        }
        if w && m == 2 && n > 2 && sep(w, p.get_char(2)) {
            let c = p.get_char(0);
            if (('a' <= c && c <= 'z') || ('A' <= c && c <= 'Z')) && p.get_char(1) == ':' {
                let r = p.substring_char(0, 3).to_owned();
                assert(r@ =~= t@.take(3));
                return Some(r);
            }
        }
        let r = p.substring_char(0, m).to_owned();
        assert(r@ =~= p@.take(m as int));
        Some(r)
    }

    /// The directory to resolve to an absolute form: the manifest's
    /// directory, or `./` when there is none.
    pub fn directory_or_current(&self) -> (r: String)
        ensures
            r@ == match directory_of(self.is_windows(), self@) {
                Some(d) => d,
                None => seq!['.', '/'],
            },
    {
        match self.directory() {
            Some(d) => d,
            None => {
                proof {
                    reveal_strlit("./");
                }
                String::from_str("./")
            }
        }
    }

    /// The `--manifest-path=` argument for the build tool, given the
    /// canonical form of the manifest path.
    pub fn cargo_arg(canonical: &str) -> (r: String)
        ensures
            r@ == seq!['-', '-', 'm', 'a', 'n', 'i', 'f', 'e', 's', 't', '-', 'p', 'a', 't', 'h', '=']
                + canonical@,
    {
        proof {
            reveal_strlit("--manifest-path=");
        }
        let r = String::from_str("--manifest-path=");
        r.concat(canonical)
    }
}

impl Default for ManifestPath {
    /// The manifest in the working directory.
    fn default() -> (r: ManifestPath)
        ensures
            r@ == manifest_file(),
            !r.is_windows(),
            r.wf(),
    {
        proof {
            reveal_strlit("Cargo.toml");
        }
        let r = ManifestPath { path: MANIFEST_FILE.to_owned(), windows: false };
        assert(r.path@ =~= manifest_file());
        assert(trimmed(false, manifest_file()) == manifest_file());
        assert(last_segment(false, manifest_file()) =~= manifest_file()) by {
            reveal_with_fuel(last_segment, 11);
        }
        r
    }
}

} // verus!
