//! The daemon's decisions: which workers a config reload stops and starts, the keys
//! under which workers report their state, and which of those belong to a repository.
use vstd::prelude::*;
use vstd::string::*;
use crate::config::{repo_views, RepoConfig, RepoSpec};
use crate::text::{
    decimal, indexed_name, is_digit, is_indexed, is_indexed_name, lemma_decimal_canonical, str_eq,
    usize_to_decimal, views,
};

verus! {

/// The repositories by name, a later entry replacing an earlier one of the same name
/// (as collecting them into a map does).
pub open spec fn latest(s: Seq<RepoSpec>) -> Map<Seq<char>, RepoSpec>
    decreases s.len(),
{
    if s.len() == 0 {
        Map::empty()
    } else {
        latest(s.drop_last()).insert(s.last().name, s.last())
    }
}

/// No two entries share a name.
pub open spec fn distinct_names(s: Seq<RepoSpec>) -> bool {
    forall|i: int, j: int| 0 <= i < j < s.len() ==> s[i].name != s[j].name
}

/// The names whose worker a reload stops: running ones that are gone or changed.
pub open spec fn stop_set(cur: Map<Seq<char>, RepoSpec>, new: Map<Seq<char>, RepoSpec>) -> Set<
    Seq<char>,
> {
    Set::new(|n: Seq<char>| cur.contains_key(n) && !(new.contains_key(n) && new[n] == cur[n]))
}

/// The names whose worker a reload starts: configured ones that are new or changed.
pub open spec fn start_set(cur: Map<Seq<char>, RepoSpec>, new: Map<Seq<char>, RepoSpec>) -> Set<
    Seq<char>,
> {
    Set::new(|n: Seq<char>| new.contains_key(n) && !(cur.contains_key(n) && new[n] == cur[n]))
}

/// What a config reload does to the workers.
#[derive(Debug)]
pub struct ReloadPlan {
    /// Names of the repositories whose worker is stopped.
    pub stop: Vec<String>,
    /// Repositories whose worker is started, with their new settings.
    pub start: Vec<RepoConfig>,
    /// The repositories running after the reload, one per name.
    pub current: Vec<RepoConfig>,
}

proof fn lemma_latest_has(s: Seq<RepoSpec>)
    ensures
        forall|n: Seq<char>|
            #[trigger] latest(s).contains_key(n) <==> exists|i: int| 0 <= i < s.len() && s[i].name
                == n,
    decreases s.len(),
{
    if s.len() > 0 {
        lemma_latest_has(s.drop_last());
        assert forall|n: Seq<char>| #[trigger] latest(s).contains_key(n) <==> exists|i: int|
            0 <= i < s.len() && s[i].name == n by {
            if latest(s).contains_key(n) && n != s.last().name {
                assert(latest(s.drop_last()).contains_key(n));
                let i = choose|i: int| 0 <= i < s.len() - 1 && s.drop_last()[i].name == n;
                assert(s[i].name == n);
            }
            if exists|i: int| 0 <= i < s.len() && s[i].name == n {
                let i = choose|i: int| 0 <= i < s.len() && s[i].name == n;
                if i < s.len() - 1 {
                    assert(s.drop_last()[i].name == n);
                    assert(latest(s.drop_last()).contains_key(n));
                }
            }
        }
    }
}

proof fn lemma_latest_distinct(s: Seq<RepoSpec>)
    requires
        distinct_names(s),
    ensures
        forall|i: int|
            0 <= i < s.len() ==> #[trigger] latest(s).contains_key(s[i].name) && latest(s)[s[i].name]
                == s[i],
    decreases s.len(),
{
    lemma_latest_has(s);
    if s.len() > 0 {
        lemma_latest_distinct(s.drop_last());
        assert forall|i: int| 0 <= i < s.len() implies #[trigger] latest(s).contains_key(s[i].name)
            && latest(s)[s[i].name] == s[i] by {
            if i < s.len() - 1 {
                assert(s.drop_last()[i] == s[i]);
                assert(latest(s.drop_last()).contains_key(s.drop_last()[i].name));
                assert(s[i].name != s.last().name);
            }
        }
    }
}

proof fn lemma_latest_update(s: Seq<RepoSpec>, j: int, r: RepoSpec)
    requires
        distinct_names(s),
        0 <= j < s.len(),
        s[j].name == r.name,
    ensures
        distinct_names(s.update(j, r)),
        latest(s.update(j, r)) == latest(s).insert(r.name, r),
{
    let t = s.update(j, r);
    assert(distinct_names(t)) by {
        assert forall|a: int, b: int| 0 <= a < b < t.len() implies t[a].name != t[b].name by {
            assert(t[a].name == s[a].name);
            assert(t[b].name == s[b].name);
        }
    }
    lemma_latest_distinct(s);
    lemma_latest_distinct(t);
    lemma_latest_has(s);
    lemma_latest_has(t);
    assert forall|n: Seq<char>| #[trigger] latest(t).contains_key(n) <==> latest(s).insert(
        r.name,
        r,
    ).contains_key(n) by {
        if latest(t).contains_key(n) {
            let i = choose|i: int| 0 <= i < t.len() && t[i].name == n;
            assert(s[i].name == n);
        }
        if latest(s).contains_key(n) {
            let i = choose|i: int| 0 <= i < s.len() && s[i].name == n;
            assert(t[i].name == n);
        }
    }
    assert forall|n: Seq<char>| #[trigger] latest(t).contains_key(n) implies latest(t)[n] == latest(
        s,
    ).insert(r.name, r)[n] by {
        let i = choose|i: int| 0 <= i < t.len() && t[i].name == n;
        assert(latest(t)[t[i].name] == t[i]);
        if i == j {
        } else {
            assert(t[i] == s[i]);
            assert(latest(s)[s[i].name] == s[i]);
            assert(s[i].name != s[j].name);
        }
    }
    assert(latest(t) =~= latest(s).insert(r.name, r));
}

/// Position of the entry named `name`, if any.
fn find_named(v: &Vec<RepoConfig>, name: &String) -> (r: Option<usize>)
    ensures
        match r {
            Some(i) => i < v@.len() && v@[i as int].name@ == name@,
            None => forall|i: int| 0 <= i < v@.len() ==> v@[i].name@ != name@,
        },
{
    let n = v.len();
    let mut i: usize = 0;
    while i < n
        invariant
            n == v@.len(),
            i <= n,
            forall|k: int| 0 <= k < i ==> v@[k].name@ != name@,
        decreases n - i,
    {
        if v[i].name == *name {
            return Some(i);
        }
        i = i + 1;
    }
    None
}

/// The repositories of a freshly loaded config, one per name, a later entry replacing
/// an earlier one of the same name.
pub fn latest_by_name(list: &Vec<RepoConfig>) -> (r: Vec<RepoConfig>)
    ensures
        distinct_names(repo_views(r@)),
        latest(repo_views(r@)) == latest(repo_views(list@)),
{
    let mut fresh: Vec<RepoConfig> = Vec::new();
    let n = list.len();
    let mut i: usize = 0;
    assert(repo_views(list@).take(0) =~= seq![]);
    assert(repo_views(fresh@) =~= seq![]);
    while i < n
        invariant
            n == list@.len(),
            i <= n,
            distinct_names(repo_views(fresh@)),
            latest(repo_views(fresh@)) == latest(repo_views(list@).take(i as int)),
        decreases n - i,
    {
        let r = list[i].clone();
        let ghost rv = r@;
        let ghost before = repo_views(fresh@);
        assert(repo_views(list@).take(i + 1).drop_last() =~= repo_views(list@).take(i as int));
        assert(repo_views(list@).take(i + 1).last() == rv);
        match find_named(&fresh, &list[i].name) {
            Some(j) => {
                fresh.set(j, r);
                assert(repo_views(fresh@) =~= before.update(j as int, rv));
                proof {
                    lemma_latest_update(before, j as int, rv);
                }
            },
            None => {
                fresh.push(r);
                assert(repo_views(fresh@) =~= before.push(rv));
                assert(repo_views(fresh@).drop_last() =~= before);
                assert forall|a: int, b: int|
                    0 <= a < b < repo_views(fresh@).len() implies repo_views(fresh@)[a].name
                    != repo_views(fresh@)[b].name by {
                    if b == before.len() {
                        assert(fresh@[a].name@ != list@[i as int].name@);
                    }
                }
            },
        }
        i = i + 1;
    }
    assert(repo_views(list@).take(n as int) =~= repo_views(list@));
    fresh
}

/// Plans a config reload: `current` are the running repositories (one per name) and
/// `loaded` the repositories of the reloaded config. A running repository that is gone or
/// whose settings changed is stopped; a configured one that is new or changed is started;
/// the others keep running.
pub fn plan_reload(current: &Vec<RepoConfig>, loaded: &Vec<RepoConfig>) -> (p: ReloadPlan)
    requires
        distinct_names(repo_views(current@)),
    ensures
        ({
            let cur = latest(repo_views(current@));
            let new = latest(repo_views(loaded@));
            &&& views(p.stop@).no_duplicates()
            &&& views(p.stop@).to_set() == stop_set(cur, new)
            &&& distinct_names(repo_views(p.start@))
            &&& forall|n: Seq<char>|
                #[trigger] start_set(cur, new).contains(n) <==> views_names(p.start@).contains(n)
            &&& forall|i: int|
                0 <= i < p.start@.len() ==> new.contains_key(#[trigger] repo_views(p.start@)[i].name)
                    && new[repo_views(p.start@)[i].name] == repo_views(p.start@)[i]
            &&& distinct_names(repo_views(p.current@))
            &&& latest(repo_views(p.current@)) == new
        }),
{
    let fresh = latest_by_name(loaded);
    let ghost cs = repo_views(current@);
    let ghost fs = repo_views(fresh@);
    let ghost cur = latest(cs);
    let ghost new = latest(fs);
    proof {
        lemma_latest_distinct(cs);
        lemma_latest_distinct(fs);
        lemma_latest_has(cs);
        lemma_latest_has(fs);
    }
    let stop = stopped_names(current, &fresh, Ghost(cur), Ghost(new));
    let start = started_repos(current, &fresh, Ghost(cur), Ghost(new));
    ReloadPlan { stop, start, current: fresh }
}

fn stopped_names(
    current: &Vec<RepoConfig>,
    fresh: &Vec<RepoConfig>,
    Ghost(cur): Ghost<Map<Seq<char>, RepoSpec>>,
    Ghost(new): Ghost<Map<Seq<char>, RepoSpec>>,
) -> (stop: Vec<String>)
    requires
        distinct_names(repo_views(current@)),
        distinct_names(repo_views(fresh@)),
        cur == latest(repo_views(current@)),
        new == latest(repo_views(fresh@)),
        forall|k: int|
            0 <= k < current@.len() ==> #[trigger] cur.contains_key(repo_views(current@)[k].name)
                && cur[repo_views(current@)[k].name] == repo_views(current@)[k],
        forall|k: int|
            0 <= k < fresh@.len() ==> #[trigger] new.contains_key(repo_views(fresh@)[k].name)
                && new[repo_views(fresh@)[k].name] == repo_views(fresh@)[k],
        forall|m: Seq<char>|
            #[trigger] cur.contains_key(m) <==> exists|k: int|
                0 <= k < current@.len() && repo_views(current@)[k].name == m,
        forall|m: Seq<char>|
            #[trigger] new.contains_key(m) <==> exists|k: int|
                0 <= k < fresh@.len() && repo_views(fresh@)[k].name == m,
    ensures
        views(stop@).no_duplicates(),
        views(stop@).to_set() == stop_set(cur, new),
{
    let ghost cs = repo_views(current@);
    let ghost fs = repo_views(fresh@);
    let mut stop: Vec<String> = Vec::new();
    let n = current.len();
    let mut i: usize = 0;
    while i < n
        invariant
            n == current@.len(),
            i <= n,
            cs == repo_views(current@),
            fs == repo_views(fresh@),
            distinct_names(cs),
            forall|k: int| 0 <= k < cs.len() ==> #[trigger] cur.contains_key(cs[k].name) && cur[cs[k].name] == cs[k],
            forall|k: int| 0 <= k < fs.len() ==> #[trigger] new.contains_key(fs[k].name) && new[fs[k].name] == fs[k],
            forall|m: Seq<char>| #[trigger] new.contains_key(m) <==> exists|k: int| 0 <= k < fs.len() && fs[k].name == m,
            views(stop@).no_duplicates(),
            forall|m: Seq<char>|
                #[trigger] views(stop@).contains(m) <==> exists|k: int|
                    0 <= k < i && cs[k].name == m && stop_set(cur, new).contains(m),
        decreases n - i,
    {
        let ghost before = views(stop@);
        let c = &current[i];
        assert(cs[i as int] == c@);
        let halt = match find_named(fresh, &c.name) {
            Some(j) => {
                assert(fs[j as int] == fresh@[j as int]@);
                assert(new.contains_key(fs[j as int].name));
                assert(cur.contains_key(cs[i as int].name));
                !fresh[j].same_settings(c)
            },
            None => {
                assert forall|k: int| 0 <= k < fs.len() implies fs[k].name != c.name@ by {
                    assert(fs[k] == fresh@[k]@);
                }
                assert(!new.contains_key(c.name@));
                assert(cur.contains_key(cs[i as int].name));
                true
            },
        };
        assert(halt == stop_set(cur, new).contains(c.name@));
        if halt {
            stop.push(c.name.clone());
            assert(views(stop@) =~= before.push(c.name@));
            assert(!before.contains(c.name@)) by {
                if before.contains(c.name@) {
                    let k = choose|k: int|
                        0 <= k < i && cs[k].name == c.name@ && stop_set(cur, new).contains(c.name@);
                    assert(cs[k].name == cs[i as int].name);
                }
            }
        } else {
            assert(views(stop@) == before);
        }
        assert forall|m: Seq<char>| #[trigger] views(stop@).contains(m) <==> exists|k: int|
            0 <= k < i + 1 && cs[k].name == m && stop_set(cur, new).contains(m) by {
            if views(stop@).contains(m) && !before.contains(m) {
                let q = choose|q: int| 0 <= q < views(stop@).len() && views(stop@)[q] == m;
                if q < before.len() {
                    assert(before[q] == m);
                }
                assert(cs[i as int].name == m);
            }
            if before.contains(m) {
                let q = choose|q: int| 0 <= q < before.len() && before[q] == m;
                assert(views(stop@)[q] == m);
            }
            if exists|k: int| 0 <= k < i + 1 && cs[k].name == m && stop_set(cur, new).contains(m) {
                let k = choose|k: int| 0 <= k < i + 1 && cs[k].name == m && stop_set(cur, new).contains(m);
                if k == i {
                    assert(views(stop@)[views(stop@).len() - 1] == m);
                }
            }
        }
        i = i + 1;
    }
    assert(views(stop@).to_set() =~= stop_set(cur, new)) by {
        assert forall|m: Seq<char>| #[trigger] stop_set(cur, new).contains(m) implies views(stop@).contains(m) by {
            let k = choose|k: int| 0 <= k < current@.len() && cs[k].name == m;
        }
    }
    stop
}

fn started_repos(
    current: &Vec<RepoConfig>,
    fresh: &Vec<RepoConfig>,
    Ghost(cur): Ghost<Map<Seq<char>, RepoSpec>>,
    Ghost(new): Ghost<Map<Seq<char>, RepoSpec>>,
) -> (start: Vec<RepoConfig>)
    requires
        distinct_names(repo_views(current@)),
        distinct_names(repo_views(fresh@)),
        cur == latest(repo_views(current@)),
        new == latest(repo_views(fresh@)),
        forall|k: int|
            0 <= k < current@.len() ==> #[trigger] cur.contains_key(repo_views(current@)[k].name)
                && cur[repo_views(current@)[k].name] == repo_views(current@)[k],
        forall|k: int|
            0 <= k < fresh@.len() ==> #[trigger] new.contains_key(repo_views(fresh@)[k].name)
                && new[repo_views(fresh@)[k].name] == repo_views(fresh@)[k],
        forall|m: Seq<char>|
            #[trigger] cur.contains_key(m) <==> exists|k: int|
                0 <= k < current@.len() && repo_views(current@)[k].name == m,
        forall|m: Seq<char>|
            #[trigger] new.contains_key(m) <==> exists|k: int|
                0 <= k < fresh@.len() && repo_views(fresh@)[k].name == m,
    ensures
        distinct_names(repo_views(start@)),
        forall|n: Seq<char>|
            #[trigger] start_set(cur, new).contains(n) <==> views_names(start@).contains(n),
        forall|i: int|
            0 <= i < start@.len() ==> new.contains_key(#[trigger] repo_views(start@)[i].name)
                && new[repo_views(start@)[i].name] == repo_views(start@)[i],
{
    let ghost cs = repo_views(current@);
    let ghost fs = repo_views(fresh@);
    let mut start: Vec<RepoConfig> = Vec::new();
    let f = fresh.len();
    let mut j: usize = 0;
    while j < f
        invariant
            f == fresh@.len(),
            j <= f,
            cs == repo_views(current@),
            fs == repo_views(fresh@),
            distinct_names(fs),
            forall|k: int| 0 <= k < cs.len() ==> #[trigger] cur.contains_key(cs[k].name) && cur[cs[k].name] == cs[k],
            forall|k: int| 0 <= k < fs.len() ==> #[trigger] new.contains_key(fs[k].name) && new[fs[k].name] == fs[k],
            forall|m: Seq<char>| #[trigger] cur.contains_key(m) <==> exists|k: int| 0 <= k < cs.len() && cs[k].name == m,
            distinct_names(repo_views(start@)),
            forall|k: int|
                0 <= k < start@.len() ==> new.contains_key(#[trigger] repo_views(start@)[k].name)
                    && new[repo_views(start@)[k].name] == repo_views(start@)[k],
            forall|m: Seq<char>|
                #[trigger] views_names(start@).contains(m) <==> exists|k: int|
                    0 <= k < j && fs[k].name == m && start_set(cur, new).contains(m),
        decreases f - j,
    {
        let ghost before = start@;
        let r = &fresh[j];
        assert(fs[j as int] == r@);
        let begin = match find_named(current, &r.name) {
            Some(k) => {
                assert(cs[k as int] == current@[k as int]@);
                assert(cur.contains_key(cs[k as int].name));
                assert(new.contains_key(fs[j as int].name));
                !current[k].same_settings(r)
            },
            None => {
                assert forall|k: int| 0 <= k < cs.len() implies cs[k].name != r.name@ by {
                    assert(cs[k] == current@[k]@);
                }
                assert(!cur.contains_key(r.name@));
                assert(new.contains_key(fs[j as int].name));
                true
            },
        };
        assert(begin == start_set(cur, new).contains(r.name@));
        if begin {
            start.push(r.clone());
            assert(start@ == before.push(fresh@[j as int]));
            assert(views_names(start@) =~= views_names(before).push(r.name@));
            assert(repo_views(start@) =~= repo_views(before).push(r@));
            assert forall|a: int, b: int| 0 <= a < b < repo_views(start@).len() implies repo_views(start@)[a].name != repo_views(start@)[b].name by {
                if b == before.len() {
                    assert(views_names(before)[a] == before[a].name@);
                    assert(views_names(before).contains(before[a].name@));
                    let k = choose|k: int| 0 <= k < j && fs[k].name == before[a].name@ && start_set(cur, new).contains(before[a].name@);
                    assert(fs[k].name != fs[j as int].name);
                } else {
                    assert(repo_views(before)[a].name != repo_views(before)[b].name);
                }
            }
        } else {
            assert(start@ == before);
        }
        assert forall|m: Seq<char>| #[trigger] views_names(start@).contains(m) <==> exists|k: int|
            0 <= k < j + 1 && fs[k].name == m && start_set(cur, new).contains(m) by {
            if views_names(start@).contains(m) && !views_names(before).contains(m) {
                let q = choose|q: int| 0 <= q < views_names(start@).len() && views_names(start@)[q] == m;
                if q < before.len() {
                    assert(views_names(before)[q] == m);
                }
                assert(fs[j as int].name == m);
            }
            if views_names(before).contains(m) {
                let q = choose|q: int| 0 <= q < views_names(before).len() && views_names(before)[q] == m;
                assert(views_names(start@)[q] == m);
            }
            if exists|k: int| 0 <= k < j + 1 && fs[k].name == m && start_set(cur, new).contains(m) {
                let k = choose|k: int| 0 <= k < j + 1 && fs[k].name == m && start_set(cur, new).contains(m);
                if k == j {
                    assert(views_names(start@)[views_names(start@).len() - 1] == m);
                }
            }
        }
        j = j + 1;
    }
    assert forall|m: Seq<char>| #[trigger] start_set(cur, new).contains(m) implies views_names(start@).contains(m) by {
        let k = choose|k: int| 0 <= k < fs.len() && fs[k].name == m;
    }
    start
}

/// The names of a list of repositories.
pub open spec fn views_names(s: Seq<RepoConfig>) -> Seq<Seq<char>> {
    s.map_values(|r: RepoConfig| r.name@)
}

/// Law: after a reload exactly the configured repositories have a worker, each running
/// with its configured settings, and no repository gets a second worker.
pub proof fn law_reload_matches_config(cur: Map<Seq<char>, RepoSpec>, new: Map<Seq<char>, RepoSpec>)
    ensures
        forall|n: Seq<char>|
            ((cur.contains_key(n) && !#[trigger] stop_set(cur, new).contains(n)) || start_set(
                cur,
                new,
            ).contains(n)) <==> new.contains_key(n),
        forall|n: Seq<char>|
            cur.contains_key(n) && !#[trigger] stop_set(cur, new).contains(n) ==> new[n] == cur[n]
                && !start_set(cur, new).contains(n),
{
}

/// The key a worker reports its state under: the repository's name when it works in
/// the repository itself, else the name, a dash and the worktree index.
pub open spec fn state_key(name: Seq<char>, in_repo: bool, index: nat) -> Seq<char> {
    if in_repo {
        name
    } else {
        indexed_name(name, index)
    }
}

/// The state key of worker `index` of a repository.
pub fn worker_state_key(repo: &RepoConfig, index: usize) -> (k: String)
    ensures
        k@ == state_key(repo.name@, repo.in_repo, index as nat),
{
    if repo.in_repo {
        repo.name.clone()
    } else {
        let mut k = repo.name.clone();
        k.append("-");
        let d = usize_to_decimal(index);
        k.append(d.as_str());
        k
    }
}

/// The state keys of all workers of a repository, in index order.
pub fn worker_state_keys(repo: &RepoConfig) -> (keys: Vec<String>)
    ensures
        keys@.len() == repo.effective_max_workers_spec(),
        forall|i: int|
            0 <= i < keys@.len() ==> #[trigger] keys@[i]@ == state_key(
                repo.name@,
                repo.in_repo,
                i as nat,
            ),
{
    let n = repo.effective_max_workers();
    let mut keys: Vec<String> = Vec::new();
    let mut i: usize = 0;
    while i < n
        invariant
            i <= n,
            n == repo.effective_max_workers_spec(),
            keys@.len() == i,
            forall|k: int|
                0 <= k < i ==> #[trigger] keys@[k]@ == state_key(repo.name@, repo.in_repo, k as nat),
        decreases n - i,
    {
        keys.push(worker_state_key(repo, i));
        i = i + 1;
    }
    keys
}

/// Whether a state key belongs to the repository `name`: it is the name itself, or the
/// name, a dash and a worker index.
pub open spec fn belongs_to(key: Seq<char>, name: Seq<char>) -> bool {
    key == name || is_indexed(key, name)
}

/// Whether the worker state under `key` is dropped when repository `name` stops.
pub fn is_repo_state_key(key: &str, name: &str) -> (b: bool)
    ensures
        b == belongs_to(key@, name@),
{
    str_eq(key, name) || is_indexed_name(key, name)
}

/// Law: every worker state key of a repository belongs to it, so stopping the repository
/// drops the state of each of its workers.
pub proof fn law_worker_keys_belong(name: Seq<char>, in_repo: bool, index: nat)
    ensures
        belongs_to(state_key(name, in_repo, index), name),
{
    if !in_repo {
        assert(state_key(name, in_repo, index) == indexed_name(name, index));
    }
}

/// Law: stopping one repository keeps the worker states of another, unless one of the two
/// names is itself a key of the other (the name and the other's name, a dash and an
/// index).
pub proof fn law_other_repo_keys_kept(
    stopped: Seq<char>,
    other: Seq<char>,
    in_repo: bool,
    index: nat,
)
    requires
        stopped != other,
        !belongs_to(other, stopped),
        !belongs_to(stopped, other),
    ensures
        !belongs_to(state_key(other, in_repo, index), stopped),
{
    reveal_strlit("-");
    let k = state_key(other, in_repo, index);
    if !in_repo && belongs_to(k, stopped) {
        let d = decimal(index);
        lemma_decimal_canonical(index);
        assert(k == other + "-"@ + d);
        if k == stopped {
            assert(belongs_to(stopped, other));
        } else {
            let j = choose|j: nat| k == #[trigger] indexed_name(stopped, j);
            let e = decimal(j);
            lemma_decimal_canonical(j);
            if other.len() == stopped.len() {
                assert(other =~= k.subrange(0, other.len() as int));
                assert(stopped =~= k.subrange(0, stopped.len() as int));
            } else if other.len() < stopped.len() {
                let at = stopped.len() as int;
                assert(k[at] == '-');
                assert(k[at] == d[at - other.len() - 1]);
                assert(is_digit(d[at - other.len() - 1]));
            } else {
                let at = other.len() as int;
                assert(k[at] == '-');
                assert(k[at] == e[at - stopped.len() - 1]);
                assert(is_digit(e[at - stopped.len() - 1]));
            }
        }
    }
}


/// Whether the time `secs`/`nanos` (since the Unix epoch) is later than
/// `other_secs`/`other_nanos`.
pub open spec fn time_after(secs: u64, nanos: u32, other_secs: u64, other_nanos: u32) -> bool {
    secs > other_secs || (secs == other_secs && nanos > other_nanos)
}

/// The modification time of the config file when it was last loaded, since the Unix
/// epoch.
#[derive(Debug)]
pub struct ConfigWatch {
    pub last_secs: u64,
    pub last_nanos: u32,
}

impl ConfigWatch {
    /// No load yet: any modification time after the epoch is news.
    pub fn new() -> (w: Self)
        ensures
            w.last_secs == 0,
            w.last_nanos == 0,
    {
        ConfigWatch { last_secs: 0, last_nanos: 0 }
    }

    /// Takes the config file's modification time and tells whether to reload: only a
    /// time after the one of the last load is, and it becomes the last one.
    pub fn observe(&mut self, secs: u64, nanos: u32) -> (reload: bool)
        ensures
            reload == time_after(secs, nanos, old(self).last_secs, old(self).last_nanos),
            reload ==> final(self).last_secs == secs && final(self).last_nanos == nanos,
            !reload ==> final(self).last_secs == old(self).last_secs && final(self).last_nanos
                == old(self).last_nanos,
    {
        if secs > self.last_secs || (secs == self.last_secs && nanos > self.last_nanos) {
            self.last_secs = secs;
            self.last_nanos = nanos;
            true
        } else {
            false
        }
    }
}

/// Law: a modification time that was loaded does not cause another load: after an
/// `observe` that reloads, observing the same time again does not.
pub proof fn law_unchanged_config_not_reloaded(secs: u64, nanos: u32)
    ensures
        !time_after(secs, nanos, secs, nanos),
{
}

} // verus!
