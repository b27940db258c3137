use vstd::prelude::*;
use vstd::set_lib::lemma_len_subset;
use crate::config::MANIFEST_FILE_NAME;
use crate::path::{cache_storage, get_cache_storage, get_package_dir, join, join_path, package_dir};
use crate::registry::{download_package_api, package_url, HttpMethod, RegistryRequest};

verus! {

/// A package name and version.
pub type PackageKey = (Seq<char>, Seq<char>);

/// The abstract state of a resolution: the packages still to fetch, as a
/// stack whose last element comes next, and those fetched so far, in order.
pub struct ResolutionState {
    pub pending: Seq<PackageKey>,
    pub fetched: Seq<PackageKey>,
}

/// Every package the resolution has met: fetched or scheduled.
pub open spec fn seen(s: ResolutionState) -> Set<PackageKey> {
    s.fetched.to_set() + s.pending.to_set()
}

/// No package is scheduled twice, fetched twice, or both.
pub open spec fn state_wf(s: ResolutionState) -> bool {
    &&& s.pending.no_duplicates()
    &&& s.fetched.no_duplicates()
    &&& forall|i: int, j: int|
        0 <= i < s.pending.len() && 0 <= j < s.fetched.len() ==> s.pending[i] != s.fetched[j]
}

/// The dependencies that get scheduled, from the last to the first, leaving
/// out those already met; pushed in this order, the first listed dependency
/// ends on top and is fetched next.
pub open spec fn newly_scheduled(deps: Seq<PackageKey>, met: Set<PackageKey>) -> Seq<PackageKey>
    decreases deps.len(),
{
    if deps.len() == 0 {
        Seq::empty()
    } else if met.contains(deps.last()) {
        newly_scheduled(deps.drop_last(), met)
    } else {
        seq![deps.last()] + newly_scheduled(deps.drop_last(), met.insert(deps.last()))
    }
}

/// The start of a resolution of `root`.
pub open spec fn initial_state(root: PackageKey) -> ResolutionState {
    ResolutionState { pending: seq![root], fetched: Seq::empty() }
}

/// The package on top of the stack has been fetched, and `deps` are the
/// dependencies its manifest declares.
pub open spec fn step(s: ResolutionState, deps: Seq<PackageKey>) -> ResolutionState {
    ResolutionState {
        pending: s.pending.drop_last() + newly_scheduled(deps, seen(s)),
        fetched: s.fetched.push(s.pending.last()),
    }
}

/// `n` steps of a resolution fed with the dependencies that `graph` declares.
pub open spec fn run(s: ResolutionState, graph: Map<PackageKey, Seq<PackageKey>>, n: nat) -> ResolutionState
    decreases n,
{
    if n == 0 || s.pending.len() == 0 {
        s
    } else {
        run(step(s, graph[s.pending.last()]), graph, (n - 1) as nat)
    }
}

pub proof fn lemma_newly_scheduled(deps: Seq<PackageKey>, met: Set<PackageKey>)
    ensures
        newly_scheduled(deps, met).no_duplicates(),
        forall|k: PackageKey| #[trigger] newly_scheduled(deps, met).contains(k) <==> (deps.contains(k) && !met.contains(k)),
    decreases deps.len(),
{
    if deps.len() > 0 {
        let d = deps.last();
        let rest = deps.drop_last();
        if met.contains(d) {
            lemma_newly_scheduled(rest, met);
            assert forall|k: PackageKey| #[trigger] newly_scheduled(deps, met).contains(k) <==> (deps.contains(k) && !met.contains(k)) by {
                if deps.contains(k) && !met.contains(k) {
                    let i = choose|i: int| 0 <= i < deps.len() && deps[i] == k;
                    assert(rest[i] == k);
                }
                if rest.contains(k) {
                    let i = choose|i: int| 0 <= i < rest.len() && rest[i] == k;
                    assert(deps[i] == k);
                }
            }
        } else {
            let m2 = met.insert(d);
            lemma_newly_scheduled(rest, m2);
            let tail = newly_scheduled(rest, m2);
            assert(newly_scheduled(deps, met) == seq![d] + tail);
            assert forall|k: PackageKey| #[trigger] newly_scheduled(deps, met).contains(k) <==> (deps.contains(k) && !met.contains(k)) by {
                let ns = newly_scheduled(deps, met);
                if ns.contains(k) {
                    let i = choose|i: int| 0 <= i < ns.len() && ns[i] == k;
                    if i > 0 {
                        assert(tail[i - 1] == k);
                        assert(tail.contains(k));
                        assert(rest.contains(k) && !m2.contains(k));
                        let j = choose|j: int| 0 <= j < rest.len() && rest[j] == k;
                        assert(deps[j] == k);
                    } else {
                        assert(deps[deps.len() - 1] == k);
                    }
                }
                if deps.contains(k) && !met.contains(k) {
                    if k == d {
                        assert(ns[0] == k);
                    } else {
                        let i = choose|i: int| 0 <= i < deps.len() && deps[i] == k;
                        assert(rest[i] == k);
                        assert(tail.contains(k));
                        let j = choose|j: int| 0 <= j < tail.len() && tail[j] == k;
                        assert(ns[j + 1] == k);
                    }
                }
            }
            assert(!tail.contains(d));
            assert forall|i: int, j: int| 0 <= i < j < (seq![d] + tail).len() implies (seq![d] + tail)[i] != (seq![d] + tail)[j] by {
                if i == 0 {
                    assert((seq![d] + tail)[j] == tail[j - 1]);
                } else {
                    assert((seq![d] + tail)[i] == tail[i - 1]);
                    assert((seq![d] + tail)[j] == tail[j - 1]);
                }
            }
        }
    }
}

/// A step keeps the state well formed, fetches exactly one more package,
/// and adds to what has been met exactly the declared dependencies.
pub proof fn lemma_step(s: ResolutionState, deps: Seq<PackageKey>)
    requires
        state_wf(s),
        s.pending.len() > 0,
    ensures
        state_wf(step(s, deps)),
        step(s, deps).fetched.len() == s.fetched.len() + 1,
        seen(step(s, deps)) == seen(s) + deps.to_set(),
{
    let t = step(s, deps);
    let p = s.pending.last();
    let rest = s.pending.drop_last();
    let ns = newly_scheduled(deps, seen(s));
    lemma_newly_scheduled(deps, seen(s));
    assert(s.pending.to_set().contains(p));
    assert forall|i: int, j: int| 0 <= i < rest.len() && 0 <= j < ns.len() implies rest[i] != ns[j] by {
        assert(s.pending.to_set().contains(rest[i]));
        assert(ns.contains(ns[j]));
    }
    vstd::seq_lib::lemma_no_dup_in_concat(rest, ns);
    assert forall|i: int, j: int| 0 <= i < t.pending.len() && 0 <= j < t.fetched.len() implies t.pending[i] != t.fetched[j] by {
        if i < rest.len() {
            assert(t.pending[i] == s.pending[i]);
            if j < s.fetched.len() {
                assert(t.fetched[j] == s.fetched[j]);
            } else {
                assert(t.fetched[j] == s.pending[s.pending.len() - 1]);
            }
        } else {
            assert(t.pending[i] == ns[i - rest.len()]);
            assert(ns.contains(ns[i - rest.len()]));
            if j < s.fetched.len() {
                assert(s.fetched.to_set().contains(s.fetched[j]));
            }
        }
    }
    assert forall|i: int, j: int| 0 <= i < j < t.fetched.len() implies t.fetched[i] != t.fetched[j] by {
        if j == s.fetched.len() {
            assert(t.fetched[j] == s.pending[s.pending.len() - 1]);
        }
    }
    assert forall|k: PackageKey| #[trigger] seen(t).contains(k) <==> (seen(s) + deps.to_set()).contains(k) by {
        if t.pending.to_set().contains(k) {
            let i = choose|i: int| 0 <= i < t.pending.len() && t.pending[i] == k;
            if i < rest.len() {
                assert(s.pending[i] == k);
            } else {
                assert(ns[i - rest.len()] == k);
                assert(ns.contains(k));
            }
        }
        if t.fetched.to_set().contains(k) {
            let i = choose|i: int| 0 <= i < t.fetched.len() && t.fetched[i] == k;
            if i < s.fetched.len() {
                assert(s.fetched[i] == k);
            } else {
                assert(s.pending[s.pending.len() - 1] == k);
            }
        }
        if s.pending.to_set().contains(k) {
            let i = choose|i: int| 0 <= i < s.pending.len() && s.pending[i] == k;
            if i < rest.len() {
                assert(t.pending[i] == k);
            } else {
                assert(t.fetched[s.fetched.len() as int] == k);
            }
        }
        if s.fetched.to_set().contains(k) {
            let i = choose|i: int| 0 <= i < s.fetched.len() && s.fetched[i] == k;
            assert(t.fetched[i] == k);
        }
        if deps.to_set().contains(k) && !seen(s).contains(k) {
            assert(ns.contains(k));
            let j = choose|j: int| 0 <= j < ns.len() && ns[j] == k;
            assert(t.pending[rest.len() + j] == k);
        }
    }
    assert(seen(t) =~= seen(s) + deps.to_set());
}

/// All dependencies that `graph` declares for packages of `u` are in `u`.
pub open spec fn closed_under(graph: Map<PackageKey, Seq<PackageKey>>, u: Set<PackageKey>) -> bool {
    forall|k: PackageKey, i: int| #![trigger u.contains(k), graph[k][i]]
        u.contains(k) && 0 <= i < graph[k].len() ==> u.contains(graph[k][i])
}

/// Every dependency that `graph` declares for a fetched package has been met.
pub open spec fn deps_met(s: ResolutionState, graph: Map<PackageKey, Seq<PackageKey>>) -> bool {
    forall|k: PackageKey, i: int| #![trigger s.fetched.contains(k), graph[k][i]]
        s.fetched.contains(k) && 0 <= i < graph[k].len() ==> seen(s).contains(graph[k][i])
}

proof fn lemma_run(s: ResolutionState, graph: Map<PackageKey, Seq<PackageKey>>, u: Set<PackageKey>, n: nat)
    requires
        state_wf(s),
        u.finite(),
        closed_under(graph, u),
        seen(s).subset_of(u),
        deps_met(s, graph),
    ensures
        state_wf(run(s, graph, n)),
        seen(run(s, graph, n)).subset_of(u),
        deps_met(run(s, graph, n), graph),
        seen(s).subset_of(seen(run(s, graph, n))),
        run(s, graph, n).pending.len() > 0 ==> run(s, graph, n).fetched.len() == s.fetched.len() + n,
    decreases n,
{
    if n > 0 && s.pending.len() > 0 {
        let p = s.pending.last();
        let deps = graph[p];
        let t = step(s, deps);
        lemma_step(s, deps);
        assert(s.pending.to_set().contains(p));
        assert forall|k: PackageKey| deps.to_set().contains(k) implies u.contains(k) by {
            let i = choose|i: int| 0 <= i < deps.len() && deps[i] == k;
            assert(u.contains(p));
            assert(u.contains(graph[p][i]));
        }
        assert forall|k: PackageKey, i: int| t.fetched.contains(k) && 0 <= i < graph[k].len() implies seen(t).contains(#[trigger] graph[k][i]) by {
            let j = choose|j: int| 0 <= j < t.fetched.len() && t.fetched[j] == k;
            if j < s.fetched.len() {
                assert(s.fetched[j] == k);
                assert(s.fetched.contains(k));
                assert(seen(s).contains(graph[k][i]));
            } else {
                assert(k == p);
                assert(deps[i] == graph[k][i]);
                assert(deps.to_set().contains(graph[k][i]));
            }
        }
        lemma_run(t, graph, u, (n - 1) as nat);
    }
}

/// Resolution terminates even on a dependency graph with cycles: fed with
/// the dependencies a graph declares, after as many steps as the graph has
/// packages it is done, having fetched the requested package and every
/// dependency of each package it fetched, and none of them twice.
pub proof fn lemma_resolution_terminates(
    root: PackageKey,
    graph: Map<PackageKey, Seq<PackageKey>>,
    u: Set<PackageKey>,
)
    requires
        u.finite(),
        u.contains(root),
        closed_under(graph, u),
    ensures
        run(initial_state(root), graph, u.len()).pending.len() == 0,
        run(initial_state(root), graph, u.len()).fetched.no_duplicates(),
        run(initial_state(root), graph, u.len()).fetched.to_set().subset_of(u),
        run(initial_state(root), graph, u.len()).fetched.contains(root),
        forall|k: PackageKey, i: int| #![trigger run(initial_state(root), graph, u.len()).fetched.contains(k), graph[k][i]]
            run(initial_state(root), graph, u.len()).fetched.contains(k) && 0 <= i < graph[k].len()
                ==> run(initial_state(root), graph, u.len()).fetched.contains(graph[k][i]),
{
    let s0 = initial_state(root);
    assert(seen(s0) =~= set![root]) by {
        assert(s0.fetched.to_set() =~= Set::empty());
        assert forall|k: PackageKey| s0.pending.to_set().contains(k) <==> k == root by {
            if k == root {
                assert(s0.pending[0] == root);
            }
        }
    }
    lemma_run(s0, graph, u, u.len());
    let t = run(s0, graph, u.len());
    assert(seen(s0).contains(root));
    if t.pending.len() > 0 {
        let p = t.pending.last();
        assert(t.pending.to_set().contains(p));
        let bigger = t.fetched.push(p);
        assert(bigger.no_duplicates()) by {
            assert forall|i: int, j: int| 0 <= i < j < bigger.len() implies bigger[i] != bigger[j] by {
                if j == t.fetched.len() {
                    assert(bigger[j] == t.pending[t.pending.len() - 1]);
                    assert(bigger[i] == t.fetched[i]);
                }
            }
        }
        bigger.unique_seq_to_set();
        assert(bigger.to_set().subset_of(u)) by {
            assert forall|k: PackageKey| bigger.to_set().contains(k) implies u.contains(k) by {
                let i = choose|i: int| 0 <= i < bigger.len() && bigger[i] == k;
                if i < t.fetched.len() {
                    assert(t.fetched[i] == k);
                    assert(t.fetched.to_set().contains(k));
                }
            }
        }
        lemma_len_subset(bigger.to_set(), u);
        assert(false);
    }
    assert forall|k: PackageKey| t.fetched.to_set().contains(k) implies u.contains(k) by {
        assert(seen(t).contains(k));
    }
    assert(t.pending.to_set() =~= Set::<PackageKey>::empty());
    assert(seen(t).contains(root));
    assert forall|k: PackageKey, i: int| t.fetched.contains(k) && 0 <= i < graph[k].len()
        implies t.fetched.contains(#[trigger] graph[k][i]) by {
        assert(seen(t).contains(graph[k][i]));
    }
}


/// A package name and version.
pub struct PackageId {
    pub name: String,
    pub version: String,
}

impl View for PackageId {
    type V = PackageKey;

    open spec fn view(&self) -> PackageKey {
        (self.name@, self.version@)
    }
}

pub open spec fn keys_of(v: Seq<PackageId>) -> Seq<PackageKey> {
    v.map_values(|p: PackageId| p@)
}

pub open spec fn pair_keys(v: Seq<(String, String)>) -> Seq<PackageKey> {
    v.map_values(|p: (String, String)| (p.0@, p.1@))
}

/// One package to bring into the cache: download `request` into
/// `archive_path`, extract it into `extract_dir`, then read the dependencies
/// of the manifest at `manifest_path` if there is one.
pub struct FetchStep {
    pub package: PackageId,
    pub request: RegistryRequest,
    pub archive_path: String,
    pub extract_dir: String,
    pub manifest_path: String,
}

/// A depth-first resolution of a package and its transitive dependencies
/// into the cache, which meets each package once.
pub struct Resolution {
    registry_url: String,
    cache_root: String,
    fetch_yanked: bool,
    root: PackageId,
    pending: Vec<PackageId>,
    seen: Vec<PackageId>,
    fetched: Ghost<Seq<PackageKey>>,
    failure: Option<String>,
}

impl View for Resolution {
    type V = ResolutionState;

    closed spec fn view(&self) -> ResolutionState {
        ResolutionState { pending: keys_of(self.pending@), fetched: self.fetched@ }
    }
}

impl Resolution {
    pub closed spec fn wf(&self) -> bool {
        &&& state_wf(self@)
        &&& keys_of(self.seen@).to_set() == seen(self@)
    }

    pub closed spec fn registry(&self) -> Seq<char> {
        self.registry_url@
    }

    pub closed spec fn cache(&self) -> Seq<char> {
        self.cache_root@
    }

    pub closed spec fn yanked_allowed(&self) -> bool {
        self.fetch_yanked
    }

    pub closed spec fn root_key(&self) -> PackageKey {
        self.root@
    }

    /// The failure that ended the resolution, if any.
    pub closed spec fn failure_message(&self) -> Option<Seq<char>> {
        match self.failure {
            Some(m) => Some(m@),
            None => None,
        }
    }

    /// The resolution has ended: it failed, or nothing remains to fetch.
    pub open spec fn finished(&self) -> bool {
        self.failure_message().is_some() || self@.pending.len() == 0
    }

    /// How an ended resolution turned out: its failure, or the cache
    /// directory of the requested package.
    pub open spec fn ended_with(&self) -> Result<Seq<char>, Seq<char>> {
        match self.failure_message() {
            Some(m) => Err(m),
            None => Ok(package_dir(self.cache(), self.root_key().0, self.root_key().1)),
        }
    }

    /// The three places of a package in the cache and the call that fetches
    /// it.
    pub open spec fn is_fetch_step(&self, step: FetchStep, key: PackageKey) -> bool {
        &&& step.package@ == key
        &&& step.request.method == HttpMethod::Get
        &&& step.request.url@ == package_url(self.registry(), key.0, key.1, self.yanked_allowed())
        &&& step.archive_path@ == cache_storage(self.cache(), key.0, key.1)
        &&& step.extract_dir@ == package_dir(self.cache(), key.0, key.1)
        &&& step.manifest_path@ == join_path(package_dir(self.cache(), key.0, key.1), MANIFEST_FILE_NAME@)
    }

    fn contains_seen(&self, name: &String, version: &String) -> (r: bool)
        ensures
            r == keys_of(self.seen@).to_set().contains((name@, version@)),
    {
        let mut i: usize = 0;
        while i < self.seen.len()
            invariant
                i <= self.seen@.len(),
                forall|j: int| 0 <= j < i ==> self.seen@[j]@ != (name@, version@),
            decreases self.seen@.len() - i,
        {
            if self.seen[i].name == *name && self.seen[i].version == *version {
                assert(keys_of(self.seen@)[i as int] == (name@, version@));
                return true;
            }
            i = i + 1;
        }
        assert forall|j: int| 0 <= j < keys_of(self.seen@).len() implies keys_of(self.seen@)[j] != (name@, version@) by {
            assert(keys_of(self.seen@)[j] == self.seen@[j]@);
        }
        false
    }

    /// Schedules the dependencies of the package just fetched, the first one
    /// on top, leaving out those already met.
    fn schedule(&mut self, deps: &Vec<(String, String)>)
        requires
            keys_of(old(self).seen@).to_set() == old(self)@.fetched.to_set() + old(self)@.pending.to_set(),
        ensures
            final(self)@.pending == old(self)@.pending + newly_scheduled(pair_keys(deps@), keys_of(old(self).seen@).to_set()),
            keys_of(final(self).seen@).to_set() == keys_of(old(self).seen@).to_set() + pair_keys(deps@).to_set(),
            final(self)@.fetched == old(self)@.fetched,
            final(self).registry_url == old(self).registry_url,
            final(self).cache_root == old(self).cache_root,
            final(self).fetch_yanked == old(self).fetch_yanked,
            final(self).root == old(self).root,
            final(self).failure == old(self).failure,
    {
        let ghost met0 = keys_of(self.seen@).to_set();
        let ghost pending0 = self@.pending;
        let mut i: usize = deps.len();
        proof {
            assert(pair_keys(deps@).subrange(0, i as int) =~= pair_keys(deps@));
        }
        while i > 0
            invariant
                i <= deps@.len(),
                self@.pending + newly_scheduled(pair_keys(deps@).subrange(0, i as int), keys_of(self.seen@).to_set())
                    == pending0 + newly_scheduled(pair_keys(deps@), met0),
                keys_of(self.seen@).to_set() + pair_keys(deps@).subrange(0, i as int).to_set()
                    == met0 + pair_keys(deps@).to_set(),
                self@.fetched == old(self)@.fetched,
                self.registry_url == old(self).registry_url,
                self.cache_root == old(self).cache_root,
                self.fetch_yanked == old(self).fetch_yanked,
                self.root == old(self).root,
                self.failure == old(self).failure,
            decreases i,
        {
            let ghost pre = pair_keys(deps@).subrange(0, i as int);
            let ghost met = keys_of(self.seen@).to_set();
            let ghost d = pre.last();
            assert(pre.drop_last() =~= pair_keys(deps@).subrange(0, i - 1));
            let name = &deps[i - 1].0;
            let version = &deps[i - 1].1;
            assert(d == (name@, version@));
            assert(pre.to_set() =~= pre.drop_last().to_set().insert(d)) by {
                assert forall|k: PackageKey| pre.to_set().contains(k) <==> pre.drop_last().to_set().insert(d).contains(k) by {
                    if pre.to_set().contains(k) {
                        let j = choose|j: int| 0 <= j < pre.len() && pre[j] == k;
                        if j < pre.len() - 1 {
                            assert(pre.drop_last()[j] == k);
                        }
                    }
                    if pre.drop_last().to_set().contains(k) {
                        let j = choose|j: int| 0 <= j < pre.drop_last().len() && pre.drop_last()[j] == k;
                        assert(pre[j] == k);
                    }
                }
            }
            if !self.contains_seen(name, version) {
                let id = PackageId { name: name.clone(), version: version.clone() };
                let id2 = PackageId { name: name.clone(), version: version.clone() };
                let ghost p_before = self@.pending;
                let ghost s_before = self.seen@;
                self.pending.push(id);
                self.seen.push(id2);
                proof {
                    assert(self@.pending =~= p_before.push(d));
                    assert(keys_of(self.seen@) =~= keys_of(s_before).push(d));
                    keys_of(s_before).lemma_push_to_set_commute(d);
                    assert(newly_scheduled(pre, met) == seq![d] + newly_scheduled(pre.drop_last(), met.insert(d)));
                    assert(p_before + (seq![d] + newly_scheduled(pre.drop_last(), met.insert(d)))
                        =~= p_before.push(d) + newly_scheduled(pre.drop_last(), met.insert(d)));
                    assert(met.insert(d) + pre.drop_last().to_set() =~= met + pre.to_set());
                }
            } else {
                proof {
                    assert(met + pre.drop_last().to_set() =~= met + pre.to_set());
                }
            }
            i = i - 1;
        }
        proof {
            assert(pair_keys(deps@).subrange(0, 0) =~= Seq::<PackageKey>::empty());
            assert(self@.pending + Seq::<PackageKey>::empty() =~= self@.pending);
            assert(Seq::<PackageKey>::empty().to_set() =~= Set::<PackageKey>::empty());
            assert(keys_of(self.seen@).to_set() + Set::<PackageKey>::empty() =~= keys_of(self.seen@).to_set());
        }
    }

    /// Starts resolving `package_name` at `version`: that package is the
    /// first to fetch. `fetch_yanked` holds for every package of the
    /// resolution.
    pub fn store_package(
        registry_url: &str,
        cache_root: &str,
        package_name: &str,
        version: &str,
        fetch_yanked: bool,
    ) -> (r: Resolution)
        ensures
            r.wf(),
            r@ == initial_state((package_name@, version@)),
            r.registry() == registry_url@,
            r.cache() == cache_root@,
            r.yanked_allowed() == fetch_yanked,
            r.root_key() == (package_name@, version@),
            r.failure_message().is_none(),
    {
        let root = PackageId { name: String::from_str(package_name), version: String::from_str(version) };
        let mut pending: Vec<PackageId> = Vec::new();
        pending.push(PackageId { name: String::from_str(package_name), version: String::from_str(version) });
        let mut seen: Vec<PackageId> = Vec::new();
        seen.push(PackageId { name: String::from_str(package_name), version: String::from_str(version) });
        let r = Resolution {
            registry_url: String::from_str(registry_url),
            cache_root: String::from_str(cache_root),
            fetch_yanked,
            root,
            pending,
            seen,
            fetched: Ghost(Seq::empty()),
            failure: None,
        };
        proof {
            let k = (package_name@, version@);
            assert(keys_of(r.pending@) =~= seq![k]);
            assert(keys_of(r.seen@) =~= seq![k]);
            assert(r@ == initial_state(k));
            assert(seq![k].to_set() =~= Seq::<PackageKey>::empty().to_set() + seq![k].to_set());
        }
        r
    }

    /// The next package to bring into the cache, unless the resolution has
    /// failed or is complete.
    pub fn next_fetch(&self) -> (r: Option<FetchStep>)
        requires
            self.wf(),
        ensures
            match r {
                None => self.failure_message().is_some() || self@.pending.len() == 0,
                Some(step) => {
                    &&& self.failure_message().is_none()
                    &&& self@.pending.len() > 0
                    &&& self.is_fetch_step(step, self@.pending.last())
                },
            },
    {
        if self.failure.is_some() || self.pending.len() == 0 {
            return None;
        }
        let top = &self.pending[self.pending.len() - 1];
        let name = top.name.as_str();
        let version = top.version.as_str();
        let extract_dir = get_package_dir(self.cache_root.as_str(), name, version);
        let manifest_path = join(extract_dir.as_str(), MANIFEST_FILE_NAME);
        Some(FetchStep {
            package: PackageId { name: top.name.clone(), version: top.version.clone() },
            request: download_package_api(self.registry_url.as_str(), name, version, self.fetch_yanked),
            archive_path: get_cache_storage(self.cache_root.as_str(), name, version),
            extract_dir,
            manifest_path,
        })
    }

    /// The package on top has been fetched and extracted, and its manifest
    /// declares `dependencies` (none when it has no manifest).
    pub fn record_fetched(&mut self, dependencies: &Vec<(String, String)>)
        requires
            old(self).wf(),
            old(self).failure_message().is_none(),
            old(self)@.pending.len() > 0,
        ensures
            final(self).wf(),
            final(self)@ == step(old(self)@, pair_keys(dependencies@)),
            seen(final(self)@) == seen(old(self)@) + pair_keys(dependencies@).to_set(),
            final(self).registry() == old(self).registry(),
            final(self).cache() == old(self).cache(),
            final(self).yanked_allowed() == old(self).yanked_allowed(),
            final(self).root_key() == old(self).root_key(),
            final(self).failure_message().is_none(),
    {
        let ghost s0 = self@;
        proof {
            lemma_step(s0, pair_keys(dependencies@));
        }
        let _ = self.pending.pop();
        proof {
            assert(keys_of(self.pending@) =~= s0.pending.drop_last());
            self.fetched@ = self.fetched@.push(s0.pending.last());
            assert(self@.fetched.to_set() + self@.pending.to_set() =~= seen(s0)) by {
                assert(s0.pending =~= self@.pending.push(s0.pending.last()));
                self@.pending.lemma_push_to_set_commute(s0.pending.last());
                s0.fetched.lemma_push_to_set_commute(s0.pending.last());
            }
        }
        self.schedule(dependencies);
        assert(self@ =~= step(s0, pair_keys(dependencies@)));
    }

    /// Fetching the package on top failed: the resolution ends with `message`.
    pub fn record_failure(&mut self, message: String)
        requires
            old(self).wf(),
        ensures
            final(self).wf(),
            final(self)@ == old(self)@,
            final(self).failure_message() == Some(message@),
            final(self).registry() == old(self).registry(),
            final(self).cache() == old(self).cache(),
            final(self).yanked_allowed() == old(self).yanked_allowed(),
            final(self).root_key() == old(self).root_key(),
    {
        self.failure = Some(message);
    }

    /// How the resolution ended: the failure, or the cache directory of the
    /// requested package once every package has been fetched; `None` while
    /// packages remain.
    pub fn outcome(&self) -> (r: Option<Result<String, String>>)
        ensures
            match self.failure_message() {
                Some(m) => r matches Some(Err(e)) && e@ == m,
                None => if self@.pending.len() == 0 {
                    r matches Some(Ok(p)) && p@ == package_dir(self.cache(), self.root_key().0, self.root_key().1)
                } else {
                    r is None
                },
            },
    {
        match &self.failure {
            Some(m) => Some(Err(m.clone())),
            None => {
                if self.pending.len() == 0 {
                    Some(Ok(get_package_dir(self.cache_root.as_str(), self.root.name.as_str(), self.root.version.as_str())))
                } else {
                    None
                }
            },
        }
    }

    /// The requested package and the cache root.
    pub fn identity(&self) -> (r: (String, String, String))
        ensures
            r.0@ == self.root_key().0,
            r.1@ == self.root_key().1,
            r.2@ == self.cache(),
    {
        (self.root.name.clone(), self.root.version.clone(), self.cache_root.clone())
    }
}

} // verus!
