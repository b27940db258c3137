use vstd::prelude::*;

verus! {

/// Joins a path segment onto a directory, with `/` as the separator: an
/// absolute segment replaces the directory, and no separator is doubled.
pub open spec fn join_path(base: Seq<char>, seg: Seq<char>) -> Seq<char> {
    if seg.len() > 0 && seg[0] == '/' {
        seg
    } else if base.len() == 0 || base.last() == '/' {
        base + seg
    } else {
        base + seq!['/'] + seg
    }
}

pub fn join(base: &str, seg: &str) -> (r: String)
    ensures
        r@ == join_path(base@, seg@),
{
    let seg_len = seg.unicode_len();
    let base_len = base.unicode_len();
    if seg_len > 0 && seg.get_char(0) == '/' {
        return String::from_str(seg);
    }
    let mut r = String::from_str(base);
    if !(base_len == 0 || base.get_char(base_len - 1) == '/') {
        r.append("/");
        proof { reveal_strlit("/"); }
    }
    r.append(seg);
    r
}


/// `name_version`: how a package is named in file names.
pub open spec fn full_package_name(name: Seq<char>, version: Seq<char>) -> Seq<char> {
    name + seq!['_'] + version
}

/// The file name under which a downloaded archive is kept in the cache.
pub open spec fn package_filename(name: Seq<char>, version: Seq<char>) -> Seq<char> {
    full_package_name(name, version) + seq!['.', 'a', 'r', 'c', 'h', 'i', 'v', 'e']
}

/// Where the raw archive of a package is kept: `<cache_root>/<name>_<version>.archive`.
pub open spec fn cache_storage(cache_root: Seq<char>, name: Seq<char>, version: Seq<char>) -> Seq<char> {
    join_path(cache_root, package_filename(name, version))
}

/// Where a package is extracted: `<cache_root>/<name>/<version>`.
pub open spec fn package_dir(cache_root: Seq<char>, name: Seq<char>, version: Seq<char>) -> Seq<char> {
    join_path(join_path(cache_root, name), version)
}

/// Creates a full package name from package name and version, e.g. `aztec_0.67.0`.
pub fn get_full_package_name(package_name: &str, version: &str) -> (r: String)
    ensures
        r@ == full_package_name(package_name@, version@),
{
    let mut r = String::from_str(package_name);
    r.append("_");
    r.append(version);
    proof { reveal_strlit("_"); }
    r
}

/// The archive file name of a package, e.g. `value_note_0.67.0.archive`.
pub fn get_package_filename(package_name: &str, version: &str) -> (r: String)
    ensures
        r@ == package_filename(package_name@, version@),
{
    let mut r = get_full_package_name(package_name, version);
    r.append(".archive");
    proof { reveal_strlit(".archive"); }
    r
}

/// The path of a package's archive in the cache.
pub fn get_cache_storage(cache_root: &str, package_name: &str, version: &str) -> (r: String)
    ensures
        r@ == cache_storage(cache_root@, package_name@, version@),
{
    let file = get_package_filename(package_name, version);
    join(cache_root, file.as_str())
}

/// The directory a package's contents are extracted to in the cache.
pub fn get_package_dir(cache_root: &str, package_name: &str, version: &str) -> (r: String)
    ensures
        r@ == package_dir(cache_root@, package_name@, version@),
{
    let by_name = join(cache_root, package_name);
    join(by_name.as_str(), version)
}

/// Index of the last `c` in `s`, or -1.
pub open spec fn last_index_of(s: Seq<char>, c: char) -> int
    decreases s.len(),
{
    if s.len() == 0 {
        -1
    } else if s.last() == c {
        s.len() - 1
    } else {
        last_index_of(s.drop_last(), c)
    }
}

pub proof fn lemma_last_index_of(s: Seq<char>, c: char)
    ensures
        -1 <= last_index_of(s, c) < s.len(),
        last_index_of(s, c) >= 0 ==> s[last_index_of(s, c)] == c,
        forall|j: int| last_index_of(s, c) < j < s.len() ==> s[j] != c,
    decreases s.len(),
{
    if s.len() > 0 && s.last() != c {
        let t = s.drop_last();
        lemma_last_index_of(t, c);
        assert forall|j: int| last_index_of(s, c) < j < s.len() implies s[j] != c by {
            if j < s.len() - 1 {
                assert(s[j] == t[j]);
            }
        }
    }
}

pub(crate) fn find_last(s: &str, c: char) -> (r: Option<usize>)
    ensures
        match r {
            Some(i) => i as int == last_index_of(s@, c),
            None => last_index_of(s@, c) == -1,
        },
{
    let n = s.unicode_len();
    let mut i: usize = n;
    assert(s@.subrange(0, n as int) =~= s@);
    while i > 0
        invariant
            i <= n == s@.len(),
            last_index_of(s@, c) == last_index_of(s@.subrange(0, i as int), c),
        decreases i,
    {
        let ghost pre = s@.subrange(0, i as int);
        assert(pre.drop_last() =~= s@.subrange(0, i - 1));
        if s.get_char(i - 1) == c {
            return Some(i - 1);
        }
        i = i - 1;
    }
    None
}

/// The text after the last `/` (all of it when there is none).
pub open spec fn last_segment(p: Seq<char>) -> Seq<char> {
    p.subrange(last_index_of(p, '/') + 1, p.len() as int)
}

/// The text before the last `/` (empty when there is none).
pub open spec fn before_last_segment(p: Seq<char>) -> Seq<char> {
    if last_index_of(p, '/') < 0 {
        Seq::empty()
    } else {
        p.subrange(0, last_index_of(p, '/'))
    }
}

/// The version recorded in a dependency path: its last segment, for a
/// non-empty path.
pub open spec fn version_of_path(p: Seq<char>) -> Option<Seq<char>> {
    if p.len() == 0 {
        None
    } else {
        Some(last_segment(p))
    }
}

/// Reads the version from a cached package path such as `../my_package/0.1.0`.
pub fn extract_version_from_path(path: &str) -> (r: Option<String>)
    ensures
        match r {
            Some(v) => version_of_path(path@) == Some(v@),
            None => version_of_path(path@).is_none(),
        },
{
    let n = path.unicode_len();
    if n == 0 {
        return None;
    }
    proof { lemma_last_index_of(path@, '/'); }
    let start: usize = match find_last(path, '/') {
        Some(i) => i + 1,
        None => 0,
    };
    Some(String::from_str(path.substring_char(start, n)))
}

/// The `(name, version)` identity encoded by a cache path
/// `<cache_root>/<name>/<version>`: its last two segments, both non-empty,
/// trailing separators aside.
pub open spec fn identity_of_path(p: Seq<char>) -> Option<(Seq<char>, Seq<char>)> {
    let q = trim_trailing_slashes(p);
    let version = last_segment(q);
    let name = last_segment(before_last_segment(q));
    if version.len() == 0 || name.len() == 0 || last_index_of(q, '/') < 0 {
        None
    } else {
        Some((name, version))
    }
}

/// Splits a dependency path into the package name and version it points at.
pub fn split_dependency_path(path: &str) -> (r: Option<(String, String)>)
    ensures
        match r {
            Some((name, version)) => identity_of_path(path@) == Some((name@, version@)),
            None => identity_of_path(path@).is_none(),
        },
{
    let trimmed_path = trimmed(path);
    let path = trimmed_path.as_str();
    let n = path.unicode_len();
    proof { lemma_last_index_of(path@, '/'); }
    let slash = match find_last(path, '/') {
        Some(i) => i,
        None => return None,
    };
    let version = path.substring_char(slash + 1, n);
    let dir = path.substring_char(0, slash);
    proof { lemma_last_index_of(dir@, '/'); }
    let name_start: usize = match find_last(dir, '/') {
        Some(i) => i + 1,
        None => 0,
    };
    let name = dir.substring_char(name_start, slash);
    if version.unicode_len() == 0 || name.unicode_len() == 0 {
        return None;
    }
    Some((String::from_str(name), String::from_str(version)))
}


/// Whether `p` begins with `b`.
pub open spec fn has_prefix(p: Seq<char>, b: Seq<char>) -> bool {
    b.len() <= p.len() && p.subrange(0, b.len() as int) == b
}

pub(crate) fn starts_with(p: &str, b: &str) -> (r: bool)
    ensures
        r == has_prefix(p@, b@),
{
    let n = p.unicode_len();
    let m = b.unicode_len();
    if m > n {
        return false;
    }
    let mut i: usize = 0;
    while i < m
        invariant
            m <= n,
            n == p@.len(),
            m == b@.len(),
            i <= m,
            forall|j: int| 0 <= j < i ==> p@[j] == b@[j],
        decreases m - i,
    {
        if p.get_char(i) != b.get_char(i) {
            assert(p@.subrange(0, m as int)[i as int] != b@[i as int]);
            return false;
        }
        i = i + 1;
    }
    assert(p@.subrange(0, m as int) =~= b@);
    true
}

/// `path` relative to the directory `base`, when `path` lies strictly below
/// it (component-wise, with no doubled separator at the split).
pub open spec fn relative_below(path: Seq<char>, base: Seq<char>) -> Option<Seq<char>> {
    if base.len() == 0 || !has_prefix(path, base) {
        None
    } else if base.last() == '/' {
        if path.len() > base.len() && path[base.len() as int] != '/' {
            Some(path.subrange(base.len() as int, path.len() as int))
        } else {
            None
        }
    } else if path.len() > base.len() + 1 && path[base.len() as int] == '/' && path[base.len()
        + 1int] != '/' {
        Some(path.subrange(base.len() + 1int, path.len() as int))
    } else {
        None
    }
}

/// The path recorded for a dependency: relative to the manifest's directory
/// when the package lies below it, the package directory itself otherwise.
pub open spec fn dependency_path(manifest_dir: Seq<char>, pkg_dir: Seq<char>) -> Seq<char> {
    match relative_below(pkg_dir, manifest_dir) {
        Some(r) => r,
        None => pkg_dir,
    }
}

pub fn relative_dependency_path(manifest_dir: &str, pkg_dir: &str) -> (r: String)
    ensures
        r@ == dependency_path(manifest_dir@, pkg_dir@),
{
    let m = manifest_dir.unicode_len();
    let n = pkg_dir.unicode_len();
    if m == 0 || !starts_with(pkg_dir, manifest_dir) {
        return String::from_str(pkg_dir);
    }
    if manifest_dir.get_char(m - 1) == '/' {
        if n > m && pkg_dir.get_char(m) != '/' {
            return String::from_str(pkg_dir.substring_char(m, n));
        }
    } else if n > m && n - m > 1 && pkg_dir.get_char(m) == '/' && pkg_dir.get_char(m + 1) != '/' {
        return String::from_str(pkg_dir.substring_char(m + 1, n));
    }
    String::from_str(pkg_dir)
}

proof fn lemma_join_keeps_root(base: Seq<char>, seg: Seq<char>)
    requires
        base.len() > 0,
        base[0] == '/',
    ensures
        join_path(base, seg).len() > 0,
        join_path(base, seg)[0] == '/',
{
}

/// A dependency path recorded for a package of an absolute cache root leads
/// back, from the manifest's directory, to that package's cache directory.
pub proof fn lemma_recorded_path_resolves(
    manifest_dir: Seq<char>,
    cache_root: Seq<char>,
    name: Seq<char>,
    version: Seq<char>,
)
    requires
        cache_root.len() > 0,
        cache_root[0] == '/',
    ensures
        join_path(manifest_dir, dependency_path(manifest_dir, package_dir(cache_root, name, version)))
            == package_dir(cache_root, name, version),
{
    let pd = package_dir(cache_root, name, version);
    lemma_join_keeps_root(cache_root, name);
    lemma_join_keeps_root(join_path(cache_root, name), version);
    match relative_below(pd, manifest_dir) {
        Some(r) => {
            if manifest_dir.last() == '/' {
                assert(manifest_dir + r =~= pd);
            } else {
                assert(manifest_dir + seq!['/'] + r =~= pd);
            }
        },
        None => {},
    }
}

/// `p` without trailing separators, keeping a lone root `/`.
pub open spec fn trim_trailing_slashes(p: Seq<char>) -> Seq<char>
    decreases p.len(),
{
    if p.len() > 1 && p.last() == '/' {
        trim_trailing_slashes(p.drop_last())
    } else {
        p
    }
}

pub proof fn lemma_trim(p: Seq<char>)
    ensures
        trim_trailing_slashes(p).len() <= p.len(),
        trim_trailing_slashes(p) =~= p.subrange(0, trim_trailing_slashes(p).len() as int),
        p.len() > 0 ==> trim_trailing_slashes(p).len() > 0,
        trim_trailing_slashes(p).len() > 1 ==> trim_trailing_slashes(p).last() != '/',
    decreases p.len(),
{
    if p.len() > 1 && p.last() == '/' {
        lemma_trim(p.drop_last());
    }
}

/// The directory containing `p`, or `None` for the root and the empty path.
pub open spec fn parent_dir(p: Seq<char>) -> Option<Seq<char>> {
    let q = trim_trailing_slashes(p);
    let i = last_index_of(q, '/');
    if q.len() == 0 || q =~= seq!['/'] {
        None
    } else if i < 0 {
        Some(Seq::empty())
    } else if i == 0 {
        Some(seq!['/'])
    } else {
        Some(q.subrange(0, i))
    }
}

pub proof fn lemma_parent_shorter(p: Seq<char>)
    ensures
        parent_dir(p) matches Some(q) ==> q.len() < p.len(),
{
    let q = trim_trailing_slashes(p);
    lemma_trim(p);
    lemma_last_index_of(q, '/');
    if q.len() == 1 && q[0] == '/' {
        assert(q =~= seq!['/']);
    }
}

/// `p` followed by each of its ancestors, up to the root.
pub open spec fn ancestors(p: Seq<char>) -> Seq<Seq<char>>
    decreases p.len(),
{
    match parent_dir(p) {
        Some(q) => {
            proof {
                lemma_parent_shorter(p);
            }
            seq![p] + ancestors(q)
        },
        None => seq![p],
    }
}

fn trimmed_len(p: &str) -> (r: usize)
    ensures
        r == trim_trailing_slashes(p@).len(),
{
    let mut k: usize = p.unicode_len();
    proof { lemma_trim(p@); }
    assert(p@.subrange(0, p@.len() as int) =~= p@);
    while k > 1 && p.get_char(k - 1) == '/'
        invariant
            k <= p@.len(),
            trim_trailing_slashes(p@) == trim_trailing_slashes(p@.subrange(0, k as int)),
        decreases k,
    {
        assert(p@.subrange(0, k as int).drop_last() =~= p@.subrange(0, k - 1));
        k = k - 1;
    }
    assert(p@.subrange(0, p@.len() as int) =~= p@);
    k
}

/// The directory containing `p` (see `parent_dir`).
pub fn parent_of(p: &str) -> (r: Option<String>)
    ensures
        match r {
            Some(q) => parent_dir(p@) == Some(q@),
            None => parent_dir(p@).is_none(),
        },
{
    let k = trimmed_len(p);
    proof { lemma_trim(p@); }
    let q = p.substring_char(0, k);
    assert(q@ =~= trim_trailing_slashes(p@));
    if k == 0 || (k == 1 && q.get_char(0) == '/') {
        if k == 1 {
            assert(q@ =~= seq!['/']);
        }
        return None;
    }
    assert(!(q@ =~= seq!['/']));
    proof { lemma_last_index_of(q@, '/'); }
    match find_last(q, '/') {
        None => Some(String::new()),
        Some(i) => {
            if i == 0 {
                let r = String::from_str("/");
                proof { reveal_strlit("/"); }
                assert(r@ =~= seq!['/']);
                Some(r)
            } else {
                Some(String::from_str(q.substring_char(0, i)))
            }
        },
    }
}


/// `p` without trailing separators (see `trim_trailing_slashes`).
pub(crate) fn trimmed(p: &str) -> (r: String)
    ensures
        r@ == trim_trailing_slashes(p@),
{
    let k = trimmed_len(p);
    proof { lemma_trim(p@); }
    String::from_str(p.substring_char(0, k))
}

} // verus!
