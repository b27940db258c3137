use vstd::prelude::*;
use crate::manifest::{DepEntries, entry_map, Dependency, Manifest, ManifestDocument, ManifestError};
use crate::path::{join_path, dependency_path, get_package_dir, identity_of_path, package_dir, relative_dependency_path, split_dependency_path};
use crate::registry::{get_latest_package_version_api, latest_version_url, HttpMethod, RegistryRequest};
use crate::resolver::{FetchStep, PackageId, PackageKey, Resolution};

verus! {

/// The version an `add` asks for.
pub enum UsedVersion {
    /// This version, as given.
    Exact(String),
    /// The registry's latest version, to be asked for with this request.
    Latest(RegistryRequest),
}

/// `latest` asks the registry; any other version is used as given.
pub fn get_used_version(registry_url: &str, package_name: &str, version: &str) -> (r: UsedVersion)
    ensures
        version@ == "latest"@ ==> (r matches UsedVersion::Latest(q) && q.method == HttpMethod::Get
            && q.url@ == latest_version_url(registry_url@, package_name@)),
        version@ != "latest"@ ==> (r matches UsedVersion::Exact(v) && v@ == version@),
{
    let latest = String::from_str("latest");
    if String::from_str(version) == latest {
        UsedVersion::Latest(get_latest_package_version_api(registry_url, package_name))
    } else {
        UsedVersion::Exact(String::from_str(version))
    }
}

/// Starts the resolution an `add` needs: the package at the version to use,
/// yanked versions left out.
pub fn begin_add(registry_url: &str, cache_root: &str, package_name: &str, version: &str) -> (r: Resolution)
    ensures
        r.wf(),
        r@ == crate::resolver::initial_state((package_name@, version@)),
        r.registry() == registry_url@,
        r.cache() == cache_root@,
        !r.yanked_allowed(),
        r.root_key() == (package_name@, version@),
        r.failure_message().is_none(),
{
    Resolution::store_package(registry_url, cache_root, package_name, version, false)
}

/// Records a package in the manifest: its dependency entry points at the
/// package's cache directory, relative to the manifest's directory when the
/// cache lies below it.
pub fn add_dep_to_manifest(
    doc: &mut ManifestDocument,
    manifest_dir: &str,
    cache_root: &str,
    package_name: &str,
    version: &str,
) -> (r: Result<(), ManifestError>)
    ensures
        r is Ok == old(doc).writable(),
        r is Ok ==> entry_map(final(doc).entries()) == entry_map(old(doc).entries()).insert(
            package_name@,
            Some(dependency_path(manifest_dir@, package_dir(cache_root@, package_name@, version@))),
        ),
        r is Err ==> final(doc).entries() == old(doc).entries(),
        final(doc).rest() == old(doc).rest(),
{
    let cached = get_package_dir(cache_root, package_name, version);
    let path = relative_dependency_path(manifest_dir, cached.as_str());
    doc.write_package_dep(package_name, path.as_str())
}

/// Ends an `add` once its resolution has finished: when every package was
/// fetched, the manifest records the requested package and its version comes
/// back; when a fetch failed, the manifest is left as it was and the failure
/// comes back.
pub fn add(doc: &mut ManifestDocument, resolution: &Resolution, manifest_dir: &str) -> (r: Result<String, String>)
    requires
        resolution.failure_message().is_some() || resolution@.pending.len() == 0,
    ensures
        resolution.failure_message() matches Some(m) ==> (r matches Err(e) && e@ == m && final(doc).entries() == old(doc).entries()),
        r is Ok ==> resolution.failure_message().is_none() && r->Ok_0@ == resolution.root_key().1
            && entry_map(final(doc).entries()) == entry_map(old(doc).entries()).insert(
                resolution.root_key().0,
                Some(dependency_path(manifest_dir@, package_dir(resolution.cache(), resolution.root_key().0, resolution.root_key().1))),
            ),
        r is Err && resolution.failure_message().is_none() ==> final(doc).entries() == old(doc).entries(),
        resolution.failure_message().is_none() && old(doc).writable() ==> r is Ok,
        final(doc).rest() == old(doc).rest(),
{
    match resolution.outcome() {
        Some(Err(e)) => Err(e),
        Some(Ok(_)) => {
            let (name, version, cache_root) = resolution.identity();
            match add_dep_to_manifest(doc, manifest_dir, cache_root.as_str(), name.as_str(), version.as_str()) {
                Ok(()) => Ok(version),
                Err(_) => Err(String::from_str("dependencies in the manifest is not a table")),
            }
        },
        None => vstd::pervasive::unreached(),
    }
}

/// Removes a dependency from the manifest; the cache is left alone.
pub fn remove(doc: &mut ManifestDocument, package_name: &str)
    ensures
        final(doc).entries() == old(doc).entries().filter(
            |e: (Seq<char>, Option<Seq<char>>)| e.0 != package_name@,
        ),
        final(doc).rest() == old(doc).rest(),
{
    doc.remove_package(package_name);
}


/// After a successful `add`, the manifest names the package, and its
/// recorded path, taken from the manifest's directory, is the package's
/// cache directory (for a cache at an absolute path).
pub proof fn lemma_add_records_cache_dir(
    before: DepEntries,
    after: DepEntries,
    manifest_dir: Seq<char>,
    cache_root: Seq<char>,
    name: Seq<char>,
    version: Seq<char>,
)
    requires
        entry_map(after) == entry_map(before).insert(
            name,
            Some(dependency_path(manifest_dir, package_dir(cache_root, name, version))),
        ),
        cache_root.len() > 0,
        cache_root[0] == '/',
    ensures
        entry_map(after).contains_key(name),
        entry_map(after)[name] matches Some(p) && join_path(manifest_dir, p) == package_dir(
            cache_root,
            name,
            version,
        ),
{
    crate::path::lemma_recorded_path_resolves(manifest_dir, cache_root, name, version);
}

/// The packages named by the path dependencies of a manifest, read from the
/// last two segments of each path; other dependencies are skipped.
pub open spec fn path_targets(deps: Seq<(String, Dependency)>) -> Seq<PackageKey>
    decreases deps.len(),
{
    if deps.len() == 0 {
        Seq::empty()
    } else {
        let rest = path_targets(deps.drop_last());
        match deps.last().1 {
            Dependency::Path { path } => match identity_of_path(path@) {
                Some(k) => rest.push(k),
                None => rest,
            },
            Dependency::Git { .. } => rest,
        }
    }
}

/// The path dependencies whose path does not name a package.
pub open spec fn unreadable_paths(deps: Seq<(String, Dependency)>) -> Seq<Seq<char>>
    decreases deps.len(),
{
    if deps.len() == 0 {
        Seq::empty()
    } else {
        let rest = unreadable_paths(deps.drop_last());
        match deps.last().1 {
            Dependency::Path { path } => match identity_of_path(path@) {
                Some(_) => rest,
                None => rest.push(deps.last().0@),
            },
            Dependency::Git { .. } => rest,
        }
    }
}

/// How fetching one dependency went.
pub struct FetchReport {
    pub package: PackageId,
    /// The package's cache directory, or why fetching it failed.
    pub result: Result<String, String>,
}

pub open spec fn report_keys(v: Seq<FetchReport>) -> Seq<PackageKey> {
    v.map_values(|r: FetchReport| r.package@)
}

pub open spec fn result_view(r: Result<String, String>) -> Result<Seq<char>, Seq<char>> {
    match r {
        Ok(p) => Ok(p@),
        Err(e) => Err(e@),
    }
}

pub open spec fn report_view(r: FetchReport) -> (PackageKey, Result<Seq<char>, Seq<char>>) {
    (r.package@, result_view(r.result))
}

pub open spec fn report_results(v: Seq<FetchReport>) -> Seq<(PackageKey, Result<Seq<char>, Seq<char>>)> {
    v.map_values(|r: FetchReport| report_view(r))
}

/// A resolution is under way and has ended.
pub open spec fn ended(current: Option<Resolution>) -> bool {
    current matches Some(res) && res.finished()
}

/// Fetches every path dependency of a manifest in turn, yanked versions
/// included; a failing dependency is reported and the next one is fetched
/// all the same.
pub struct FetchAll {
    registry_url: String,
    cache_root: String,
    targets: Vec<PackageId>,
    index: usize,
    current: Option<Resolution>,
    reports: Vec<FetchReport>,
    unreadable: Vec<String>,
    attempted: Ghost<Seq<PackageKey>>,
}

impl FetchAll {
    pub closed spec fn wf(&self) -> bool {
        &&& self.index <= self.targets@.len()
        &&& report_keys(self.reports@) == crate::resolver::keys_of(self.targets@).take(self.index as int)
        &&& forall|i: int| 0 <= i < self.index ==> self.attempted@.contains(#[trigger] self.targets@[i]@)
        &&& forall|i: int| 0 <= i < self.reports@.len() ==> ((#[trigger] self.reports@[i]).result matches Ok(p) ==> p@
            == package_dir(self.cache_root@, self.targets@[i].name@, self.targets@[i].version@))
        &&& self.current matches Some(res) ==> {
            &&& self.attempted@.contains(res.root_key())
            &&& self.index < self.targets@.len()
            &&& res.wf()
            &&& res.root_key() == self.targets@[self.index as int]@
            &&& res.registry() == self.registry_url@
            &&& res.cache() == self.cache_root@
            &&& res.yanked_allowed()
        }
    }

    /// The packages to fetch, in manifest order.
    pub closed spec fn targets(&self) -> Seq<PackageKey> {
        crate::resolver::keys_of(self.targets@)
    }

    /// The packages reported on so far, in order.
    pub closed spec fn reported(&self) -> Seq<PackageKey> {
        report_keys(self.reports@)
    }

    /// The reports so far: each package with its cache directory or the
    /// failure that ended its resolution.
    pub closed spec fn results(&self) -> Seq<(PackageKey, Result<Seq<char>, Seq<char>>)> {
        report_results(self.reports@)
    }

    pub closed spec fn cache(&self) -> Seq<char> {
        self.cache_root@
    }

    /// A fetch has been handed out and its result is awaited.
    pub closed spec fn awaiting(&self) -> bool {
        self.current matches Some(res) && res.failure_message().is_none() && res@.pending.len() > 0
            && self.attempted@.contains(res.root_key())
    }

    /// The packages whose fetch has been handed out, in order.
    pub closed spec fn attempted(&self) -> Seq<PackageKey> {
        self.attempted@
    }

    /// The resolution under way, if any.
    pub closed spec fn current_resolution(&self) -> Option<Resolution> {
        self.current
    }

    /// Plans fetching the path dependencies of `manifest`.
    pub fn fetch_all(registry_url: &str, cache_root: &str, manifest: &Manifest) -> (r: FetchAll)
        ensures
            r.wf(),
            r.targets() == path_targets(manifest.dependencies@),
            r.reported().len() == 0,
            r.attempted().len() == 0,
            r.unreadable_names() == unreadable_paths(manifest.dependencies@),
    {
        let mut targets: Vec<PackageId> = Vec::new();
        let mut unreadable: Vec<String> = Vec::new();
        let deps = &manifest.dependencies;
        let mut i: usize = 0;
        while i < deps.len()
            invariant
                i <= deps@.len(),
                crate::resolver::keys_of(targets@) == path_targets(deps@.subrange(0, i as int)),
                unreadable@.map_values(|s: String| s@) == unreadable_paths(deps@.subrange(0, i as int)),
            decreases deps@.len() - i,
        {
            assert(deps@.subrange(0, i + 1).drop_last() =~= deps@.subrange(0, i as int));
            let (name, dep) = &deps[i];
            match dep {
                Dependency::Path { path } => match split_dependency_path(path.as_str()) {
                    Some((n, v)) => {
                        let ghost before = targets@;
                        targets.push(PackageId { name: n, version: v });
                        assert(crate::resolver::keys_of(targets@) =~= crate::resolver::keys_of(before).push((n@, v@)));
                    },
                    None => {
                        let ghost before = unreadable@;
                        unreadable.push(name.clone());
                        assert(unreadable@.map_values(|s: String| s@) =~= before.map_values(|s: String| s@).push(name@));
                    },
                },
                Dependency::Git { .. } => {},
            }
            i = i + 1;
        }
        assert(deps@.subrange(0, deps@.len() as int) =~= deps@);
        let r = FetchAll {
            registry_url: String::from_str(registry_url),
            cache_root: String::from_str(cache_root),
            targets,
            index: 0,
            current: None,
            reports: Vec::new(),
            unreadable,
            attempted: Ghost(Seq::empty()),
        };
        assert(report_keys(r.reports@) =~= crate::resolver::keys_of(r.targets@).take(0));
        r
    }

    /// Names of the path dependencies whose path does not name a package.
    pub closed spec fn unreadable_names(&self) -> Seq<Seq<char>> {
        self.unreadable@.map_values(|s: String| s@)
    }

    /// Names of the path dependencies whose path does not name a package.
    pub fn unreadable(&self) -> (r: &Vec<String>)
        ensures
            r@.map_values(|s: String| s@) == self.unreadable_names(),
    {
        &self.unreadable
    }

    /// The next package to fetch. A resolution that has ended, well or not,
    /// is reported (its failure, or its package's cache directory) and the
    /// next dependency's resolution begins; `None` comes only when every
    /// dependency has been attempted and reported on, so a failing dependency
    /// never keeps the later ones from being fetched.
    pub fn next_fetch(&mut self) -> (r: Option<FetchStep>)
        requires
            old(self).wf(),
        ensures
            final(self).wf(),
            final(self).targets() == old(self).targets(),
            final(self).cache() == old(self).cache(),
            final(self).unreadable_names() == old(self).unreadable_names(),
            ended(old(self).current_resolution()) ==> final(self).results() == old(self).results().push(
                (
                    old(self).current_resolution().unwrap().root_key(),
                    old(self).current_resolution().unwrap().ended_with(),
                ),
            ),
            !ended(old(self).current_resolution()) ==> final(self).results() == old(self).results(),
            r is None ==> final(self).reported() == final(self).targets(),
            r is None ==> forall|i: int|
                0 <= i < final(self).targets().len() ==> final(self).attempted().contains(#[trigger] final(self).targets()[i]),
            r is None ==> final(self).attempted() == old(self).attempted(),
            r matches Some(step) ==> final(self).attempted() == old(self).attempted().push(step.package@),
            r matches Some(step) ==> final(self).awaiting(),
            r matches Some(step) ==> (final(self).current_resolution() matches Some(res)
                && res.is_fetch_step(step, res@.pending.last())),
    {
        let ghost results0 = report_results(self.reports@);
        match &self.current {
            Some(res) => {
                let n = self.targets.len();
                assert(self.index < n);
                match res.next_fetch() {
                    Some(step) => {
                        proof {
                            self.attempted@ = self.attempted@.push(step.package@);
                            assert forall|i: int| 0 <= i < self.index implies self.attempted@.contains(#[trigger] self.targets@[i]@) by {
                                let j = choose|j: int| 0 <= j < old(self).attempted@.len() && old(self).attempted@[j] == self.targets@[i]@;
                                assert(self.attempted@[j] == self.targets@[i]@);
                            }
                            let j = choose|j: int| 0 <= j < old(self).attempted@.len() && old(self).attempted@[j] == res.root_key();
                            assert(self.attempted@[j] == res.root_key());
                        }
                        return Some(step);
                    },
                    None => {
                        let result = match res.outcome() {
                            Some(o) => o,
                            None => vstd::pervasive::unreached(),
                        };
                        let t = &self.targets[self.index];
                        let report = FetchReport {
                            package: PackageId { name: t.name.clone(), version: t.version.clone() },
                            result,
                        };
                        let ghost before = self.reports@;
                        self.reports.push(report);
                        proof {
                            assert(report_keys(self.reports@) =~= report_keys(before).push(self.targets@[self.index as int]@));
                            assert(report_results(self.reports@) =~= report_results(before).push(report_view(self.reports@.last())));
                            assert(crate::resolver::keys_of(self.targets@).take(self.index + 1) =~= crate::resolver::keys_of(self.targets@).take(self.index as int).push(self.targets@[self.index as int]@));
                        }
                        self.index = self.index + 1;
                        self.current = None;
                    },
                }
            },
            None => {},
        }
        if self.index == self.targets.len() {
            assert(crate::resolver::keys_of(self.targets@).take(self.index as int) =~= crate::resolver::keys_of(self.targets@));
            assert forall|i: int| 0 <= i < self.targets().len() implies self.attempted().contains(#[trigger] self.targets()[i]) by {
                assert(self.targets()[i] == self.targets@[i]@);
            }
            return None;
        }
        let t = &self.targets[self.index];
        let res = Resolution::store_package(
            self.registry_url.as_str(),
            self.cache_root.as_str(),
            t.name.as_str(),
            t.version.as_str(),
            true,
        );
        match res.next_fetch() {
            Some(step) => {
                proof {
                    let a0 = self.attempted@;
                    self.attempted@ = self.attempted@.push(step.package@);
                    assert forall|i: int| 0 <= i < self.index implies self.attempted@.contains(#[trigger] self.targets@[i]@) by {
                        let j = choose|j: int| 0 <= j < a0.len() && a0[j] == self.targets@[i]@;
                        assert(self.attempted@[j] == self.targets@[i]@);
                    }
                    assert(res@.pending =~= seq![res.root_key()]);
                    assert(self.attempted@[a0.len() as int] == res.root_key());
                }
                self.current = Some(res);
                Some(step)
            },
            None => vstd::pervasive::unreached(),
        }
    }

    /// The package last handed out has been fetched; its manifest declares
    /// `dependencies`.
    pub fn record_fetched(&mut self, dependencies: &Vec<(String, String)>)
        requires
            old(self).wf(),
            old(self).awaiting(),
        ensures
            final(self).wf(),
            final(self).targets() == old(self).targets(),
            final(self).reported() == old(self).reported(),
            final(self).unreadable_names() == old(self).unreadable_names(),
            final(self).attempted() == old(self).attempted(),
    {
        let mut res = self.current.take().unwrap();
        res.record_fetched(dependencies);
        self.current = Some(res);
    }

    /// Fetching the package last handed out failed: its dependency's
    /// resolution ends with `message`, and the next `next_fetch` reports it
    /// and goes on with the next dependency.
    pub fn record_failure(&mut self, message: String)
        requires
            old(self).wf(),
            old(self).awaiting(),
        ensures
            final(self).wf(),
            final(self).targets() == old(self).targets(),
            final(self).reported() == old(self).reported(),
            final(self).unreadable_names() == old(self).unreadable_names(),
            final(self).attempted() == old(self).attempted(),
            final(self).current_resolution() matches Some(res) && res.failure_message() == Some(message@),
    {
        let mut res = self.current.take().unwrap();
        res.record_failure(message);
        self.current = Some(res);
    }

    /// The reports so far, in manifest order.
    pub fn reports(&self) -> (r: &Vec<FetchReport>)
        requires
            self.wf(),
        ensures
            report_keys(r@) == self.reported(),
            report_results(r@) == self.results(),
            forall|i: int| 0 <= i < r@.len() ==> ((#[trigger] r@[i]).result matches Ok(p) ==> p@ == package_dir(
                self.cache(),
                self.targets()[i].0,
                self.targets()[i].1,
            )),
    {
        proof {
            assert(report_keys(self.reports@).len() == self.reports@.len());
            assert forall|i: int| 0 <= i < self.reports@.len() implies ((#[trigger] self.reports@[i]).result matches Ok(p)
                ==> p@ == package_dir(self.cache(), self.targets()[i].0, self.targets()[i].1)) by {
                assert(self.targets()[i] == self.targets@[i]@);
            }
        }
        &self.reports
    }
}


/// Index of the first `c` in `s`, or -1.
pub open spec fn first_index_of(s: Seq<char>, c: char) -> int
    decreases s.len(),
{
    if s.len() == 0 {
        -1
    } else if s[0] == c {
        0
    } else if first_index_of(s.drop_first(), c) < 0 {
        -1
    } else {
        first_index_of(s.drop_first(), c) + 1
    }
}

pub proof fn lemma_first_index_of(s: Seq<char>, c: char)
    ensures
        -1 <= first_index_of(s, c) < s.len(),
        first_index_of(s, c) >= 0 ==> s[first_index_of(s, c)] == c,
        forall|j: int|
            0 <= j < s.len() && (first_index_of(s, c) < 0 || j < first_index_of(s, c)) ==> s[j] != c,
    decreases s.len(),
{
    if s.len() > 0 && s[0] != c {
        let t = s.drop_first();
        lemma_first_index_of(t, c);
        assert forall|j: int|
            0 <= j < s.len() && (first_index_of(s, c) < 0 || j < first_index_of(s, c)) implies s[j] != c by {
            if j > 0 {
                assert(s[j] == t[j - 1]);
            }
        }
    }
}

fn find_first(s: &str, c: char) -> (r: Option<usize>)
    ensures
        match r {
            Some(i) => i as int == first_index_of(s@, c),
            None => first_index_of(s@, c) == -1,
        },
{
    proof { lemma_first_index_of(s@, c); }
    let n = s.unicode_len();
    let mut i: usize = 0;
    while i < n
        invariant
            n == s@.len(),
            i <= n,
            forall|j: int| 0 <= j < i ==> s@[j] != c,
        decreases n - i,
    {
        if s.get_char(i) == c {
            proof { lemma_first_index_of(s@, c); }
            return Some(i);
        }
        i = i + 1;
    }
    None
}

pub open spec fn after_at(p: Seq<char>) -> Seq<char> {
    p.subrange(first_index_of(p, '@') + 1, p.len() as int)
}

/// A package argument `name@version`, or `name` alone for the latest
/// version; with more than one `@`, the latest version of the part before
/// the first.
pub open spec fn name_and_version(p: Seq<char>) -> (Seq<char>, Seq<char>) {
    let i = first_index_of(p, '@');
    if i < 0 {
        (p, "latest"@)
    } else if first_index_of(after_at(p), '@') >= 0 {
        (p.subrange(0, i), "latest"@)
    } else {
        (p.subrange(0, i), after_at(p))
    }
}

/// Splits a package argument into name and version (see `name_and_version`).
pub fn split_package_to_name_and_version(package: &str) -> (r: (String, String))
    ensures
        (r.0@, r.1@) == name_and_version(package@),
{
    proof { lemma_first_index_of(package@, '@'); }
    let n = package.unicode_len();
    match find_first(package, '@') {
        None => (String::from_str(package), String::from_str("latest")),
        Some(i) => {
            let name = String::from_str(package.substring_char(0, i));
            let rest = package.substring_char(i + 1, n);
            match find_first(rest, '@') {
                Some(_) => (name, String::from_str("latest")),
                None => (name, String::from_str(rest)),
            }
        },
    }
}

pub open spec fn format_hint() -> Seq<char> {
    "Please provide a package in a format <package-name>@<version>"@
}

pub open spec fn bad_version_text(v: Seq<char>) -> Seq<char> {
    "Package version "@ + v + " is incorrect. Assure correct semantic versioning value."@
}

/// A package argument that must read `name@version`, with a semantic
/// version.
pub open spec fn validated_name_and_version(p: Seq<char>) -> Result<(Seq<char>, Seq<char>), Seq<char>> {
    let i = first_index_of(p, '@');
    if i < 0 || first_index_of(after_at(p), '@') >= 0 {
        Err(format_hint())
    } else if !crate::package::is_semver(after_at(p)) {
        Err(bad_version_text(after_at(p)))
    } else {
        Ok((p.subrange(0, i), after_at(p)))
    }
}

/// Splits a package argument that must read `name@version` (see
/// `validated_name_and_version`).
pub fn split_package_to_name_and_version_with_validation(package: &str) -> (r: Result<(String, String), String>)
    ensures
        match r {
            Ok((name, version)) => validated_name_and_version(package@) == Ok::<(Seq<char>, Seq<char>), Seq<char>>((name@, version@)),
            Err(e) => validated_name_and_version(package@) == Err::<(Seq<char>, Seq<char>), Seq<char>>(e@),
        },
{
    proof { lemma_first_index_of(package@, '@'); }
    let n = package.unicode_len();
    let i = match find_first(package, '@') {
        None => { return Err(String::from_str("Please provide a package in a format <package-name>@<version>")); },
        Some(i) => i,
    };
    let rest = package.substring_char(i + 1, n);
    if find_first(rest, '@').is_some() {
        return Err(String::from_str("Please provide a package in a format <package-name>@<version>"));
    }
    if !crate::package::is_valid_version(rest) {
        let mut e = String::from_str("Package version ");
        e.append(rest);
        e.append(" is incorrect. Assure correct semantic versioning value.");
        return Err(e);
    }
    Ok((String::from_str(package.substring_char(0, i)), String::from_str(rest)))
}

} // verus!
