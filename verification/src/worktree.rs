//! The worktrees of a repository: where they live and which to create or remove.
use vstd::prelude::*;
use vstd::string::*;
use crate::config::lelouch_data_dir;
use crate::error::LelouchError;
use crate::path::{join, join_path};
use crate::text::{
    contains_str, decimal, indexed_name, is_digit, is_indexed, is_indexed_name,
    lemma_decimal_canonical, lemma_indexed_name_injective, usize_to_decimal, views,
};
use crate::work_db::opt_view;

verus! {

/// Manages the worktrees of a single repository.
#[derive(Debug)]
pub struct WorktreeManager {
    pub repo_name: String,
    pub repo_base_path: String,
    pub max_workers: usize,
}

/// The directory the worktrees live in, inside the data directory.
pub open spec fn worktrees_dir_spec(data_dir: Seq<char>) -> Seq<char> {
    join_path(data_dir, "worktrees"@)
}

/// The worktree of worker `index` of repository `name`: `<name>-<index>` in `dir`.
pub open spec fn worktree_path_spec(dir: Seq<char>, name: Seq<char>, index: nat) -> Seq<char> {
    join_path(dir, indexed_name(name, index))
}

/// Whether `entry` of the worktrees directory is a worktree of repository `name` that a
/// manager of `max_workers` workers has no use for: `<name>-<index>` with the index at
/// least `max_workers`.
pub open spec fn is_excess(entry: Seq<char>, name: Seq<char>, max_workers: nat) -> bool {
    exists|i: nat| i >= max_workers && entry == #[trigger] indexed_name(name, i)
}

/// The workers below `max_workers` whose worktree is not among `entries`, in index order.
pub open spec fn missing_worktrees(entries: Seq<Seq<char>>, name: Seq<char>, max_workers: nat) -> Seq<
    usize,
> {
    Seq::new(max_workers, |i: int| i as usize).filter(
        |i: usize| !entries.contains(indexed_name(name, i as nat)),
    )
}

/// The entries that are excess worktrees of `name`, in the order given.
pub open spec fn excess_worktrees(entries: Seq<Seq<char>>, name: Seq<char>, max_workers: nat) -> Seq<
    Seq<char>,
> {
    entries.filter(|e: Seq<char>| is_excess(e, name, max_workers))
}

/// Which worktrees a sync creates (by worker index) and removes (by entry name).
#[derive(Debug)]
pub struct SyncPlan {
    pub create: Vec<usize>,
    pub remove: Vec<String>,
}

impl WorktreeManager {
    pub fn new(repo_name: String, repo_base_path: String, max_workers: usize) -> (m: Self)
        ensures
            m.repo_name == repo_name,
            m.repo_base_path == repo_base_path,
            m.max_workers == max_workers,
    {
        WorktreeManager { repo_name, repo_base_path, max_workers }
    }

    /// The worktrees directory inside the given data directory, or an error without one.
    pub fn worktrees_dir_in(data_dir: Option<String>) -> (r: Result<String, LelouchError>)
        ensures
            match data_dir {
                Some(d) => r matches Ok(p) && p@ == worktrees_dir_spec(d@),
                None => r matches Err(LelouchError::NoAppDirectory),
            },
    {
        match data_dir {
            Some(d) => Ok(join(d.as_str(), "worktrees")),
            None => Err(LelouchError::NoAppDirectory),
        }
    }

    /// The directory where worktrees are stored: `worktrees` in lelouch's data directory.
    pub fn worktrees_dir(&self) -> (r: Result<String, LelouchError>)
        ensures
            r matches Ok(p) ==> exists|d: Seq<char>| d.len() > 0 && p@ == worktrees_dir_spec(d),
            r matches Err(e) ==> e is NoAppDirectory,
    {
        let data = lelouch_data_dir();
        let ghost d = opt_view(data);
        Self::worktrees_dir_in(data)
    }

    /// The path of worker `index`'s worktree inside `dir`.
    pub fn worktree_path_in(&self, dir: &str, index: usize) -> (p: String)
        ensures
            p@ == worktree_path_spec(dir@, self.repo_name@, index as nat),
    {
        let name = self.worktree_name(index);
        join(dir, name.as_str())
    }

    /// The path of worker `index`'s worktree.
    pub fn worktree_path(&self, index: usize) -> (r: Result<String, LelouchError>)
        ensures
            r matches Ok(p) ==> exists|d: Seq<char>| d.len() > 0
                && p@ == worktree_path_spec(worktrees_dir_spec(d), self.repo_name@, index as nat),
            r matches Err(e) ==> e is NoAppDirectory,
    {
        let dir = self.worktrees_dir()?;
        Ok(self.worktree_path_in(dir.as_str(), index))
    }

    /// Which worktrees to create and which to remove, given the names of the entries of
    /// the worktrees directory: every worker below `max_workers` without its worktree gets
    /// one, and every worktree of this repository from `max_workers` on is removed, each
    /// list in the order of indices or of entries.
    pub fn sync_worktrees(&self, entries: &Vec<String>) -> (p: SyncPlan)
        ensures
            p.create@ == missing_worktrees(views(entries@), self.repo_name@, self.max_workers as nat),
            views(p.remove@) == excess_worktrees(
                views(entries@),
                self.repo_name@,
                self.max_workers as nat,
            ),
    {
        let m = self.max_workers;
        let ghost name = self.repo_name@;
        let ghost ev = views(entries@);
        let ghost all_low = Seq::new(m as nat, |i: int| i as usize);
        let ghost missing = |i: usize| !ev.contains(indexed_name(name, i as nat));
        let mut names: Vec<String> = Vec::new();
        let mut create: Vec<usize> = Vec::new();
        let mut i: usize = 0;
        assert(all_low.take(0) =~= seq![]);
        while i < m
            invariant
                m == self.max_workers,
                name == self.repo_name@,
                ev == views(entries@),
                i <= m,
                all_low == Seq::new(m as nat, |i: int| i as usize),
                missing == (|i: usize| !ev.contains(indexed_name(name, i as nat))),
                create@ == all_low.take(i as int).filter(missing),
                names@.len() == i,
                forall|j: int| 0 <= j < i ==> #[trigger] names@[j]@ == indexed_name(name, j as nat),
            decreases m - i,
        {
            assert(all_low.take(i + 1).drop_last() =~= all_low.take(i as int));
            reveal_with_fuel(Seq::filter, 1);
            let wt = self.worktree_name(i);
            if !contains_str(entries, wt.as_str()) {
                create.push(i);
            }
            names.push(wt);
            i = i + 1;
        }
        assert(all_low.take(m as int) =~= all_low);
        let ghost excess = |e: Seq<char>| is_excess(e, name, m as nat);
        let mut remove: Vec<String> = Vec::new();
        let mut k: usize = 0;
        assert(ev.take(0) =~= seq![]);
        assert(views(remove@) =~= seq![]);
        while k < entries.len()
            invariant
                m == self.max_workers,
                name == self.repo_name@,
                ev == views(entries@),
                k <= entries@.len(),
                names@.len() == m,
                forall|j: int| 0 <= j < m ==> #[trigger] names@[j]@ == indexed_name(name, j as nat),
                excess == (|e: Seq<char>| is_excess(e, name, m as nat)),
                views(remove@) == ev.take(k as int).filter(excess),
            decreases entries@.len() - k,
        {
            assert(ev.take(k + 1).drop_last() =~= ev.take(k as int));
            reveal_with_fuel(Seq::filter, 1);
            let e = entries[k].as_str();
            assert(ev[k as int] == e@);
            let indexed = is_indexed_name(e, self.repo_name.as_str());
            let own = contains_str(&names, e);
            proof {
                lemma_excess_when(e@, name, m as nat, views(names@), indexed, own);
            }
            if indexed && !own {
                let ghost before = remove@;
                remove.push(entries[k].clone());
                assert(views(remove@) =~= views(before).push(e@));
            }
            k = k + 1;
        }
        assert(ev.take(entries@.len() as int) =~= ev);
        SyncPlan { create, remove }
    }

    /// The name of worker `index`'s worktree: the repository's name, a dash and the index.
    pub fn worktree_name(&self, index: usize) -> (n: String)
        ensures
            n@ == indexed_name(self.repo_name@, index as nat),
    {
        let mut name = self.repo_name.clone();
        proof { reveal_strlit("-"); }
        name.append("-");
        let d = usize_to_decimal(index);
        name.append(d.as_str());
        name
    }
}

proof fn lemma_excess_when(
    e: Seq<char>,
    name: Seq<char>,
    m: nat,
    names: Seq<Seq<char>>,
    indexed: bool,
    own: bool,
)
    requires
        names.len() == m,
        forall|j: int| 0 <= j < m ==> #[trigger] names[j] == indexed_name(name, j as nat),
        indexed == is_indexed(e, name),
        own == names.contains(e),
    ensures
        (indexed && !own) == is_excess(e, name, m),
{
    if indexed && !own {
        let i = choose|i: nat| e == #[trigger] indexed_name(name, i);
        if i < m {
            assert(names[i as int] == e);
        }
    }
    if is_excess(e, name, m) {
        let i = choose|i: nat| i >= m && e == #[trigger] indexed_name(name, i);
        if own {
            let j = choose|j: int| 0 <= j < names.len() && names[j] == e;
            lemma_indexed_name_injective(name, i, j as nat);
        }
    }
}

/// Whether, after a sync has created what it plans and removed what it plans, the
/// worktree of worker `index` is there.
pub open spec fn present_after_sync(
    entries: Seq<Seq<char>>,
    name: Seq<char>,
    max_workers: usize,
    index: usize,
) -> bool {
    let w = indexed_name(name, index as nat);
    ||| entries.contains(w) && !excess_worktrees(entries, name, max_workers as nat).contains(w)
    ||| missing_worktrees(entries, name, max_workers as nat).contains(index)
}

/// Law: a manager keeps exactly the worktrees of the workers below its limit: after a
/// sync has created what it plans and removed what it plans, the worktree of a worker is
/// there exactly when its index is below `max_workers`.
pub proof fn law_sync_keeps_exactly_the_workers(
    entries: Seq<Seq<char>>,
    name: Seq<char>,
    max_workers: usize,
    index: usize,
)
    ensures
        present_after_sync(entries, name, max_workers, index) <==> index < max_workers,
{
    broadcast use vstd::seq_lib::group_filter_ensures;

    let m = max_workers as nat;
    let w = indexed_name(name, index as nat);
    let excess = |e: Seq<char>| is_excess(e, name, m);
    let missing = |i: usize| !entries.contains(indexed_name(name, i as nat));
    let all_low = Seq::new(m, |i: int| i as usize);
    let ex = excess_worktrees(entries, name, m);
    let mi = missing_worktrees(entries, name, m);
    assert(ex == entries.filter(excess));
    assert(mi == all_low.filter(missing));
    if index < max_workers {
        if ex.contains(w) {
            let k = choose|k: int| 0 <= k < ex.len() && ex[k] == w;
            assert(excess(ex[k]));
            entries.lemma_filter_contains_rev(excess, w);
            let i = choose|i: nat| i >= m && w == #[trigger] indexed_name(name, i);
            lemma_indexed_name_injective(name, i, index as nat);
        }
        if !entries.contains(w) {
            assert(all_low[index as int] == index);
            assert(missing(all_low[index as int]));
            assert(mi.contains(index));
        }
    } else {
        if entries.contains(w) {
            let k = choose|k: int| 0 <= k < entries.len() && entries[k] == w;
            assert(excess(entries[k]));
            assert(ex.contains(w));
        }
        if mi.contains(index) {
            all_low.lemma_filter_contains_rev(missing, index);
            let k = choose|k: int| 0 <= k < all_low.len() && all_low[k] == index;
            assert(all_low[k] == k as usize);
        }
    }
}

/// Law: in one directory, different workers of a repository whose name holds no `/`
/// get different worktrees, each directly inside that directory.
pub proof fn law_worktrees_distinct(dir: Seq<char>, name: Seq<char>, i: nat, j: nat)
    requires
        i != j,
        !name.contains('/'),
    ensures
        worktree_path_spec(dir, name, i) != worktree_path_spec(dir, name, j),
        worktree_path_spec(dir, name, i) == join_path(dir, indexed_name(name, i)),
        !indexed_name(name, i).contains('/'),
{
    reveal_strlit("-");
    lemma_decimal_canonical(i);
    lemma_decimal_canonical(j);
    let a = indexed_name(name, i);
    let b = indexed_name(name, j);
    assert forall|k: int| 0 <= k < a.len() implies a[k] != '/' by {
        if k < name.len() {
            assert(a[k] == name[k]);
        } else if k > name.len() {
            assert(a[k] == decimal(i)[k - name.len() - 1]);
            assert(is_digit(decimal(i)[k - name.len() - 1]));
        }
    }
    assert forall|k: int| 0 <= k < b.len() implies b[k] != '/' by {
        if k < name.len() {
            assert(b[k] == name[k]);
        } else if k > name.len() {
            assert(b[k] == decimal(j)[k - name.len() - 1]);
            assert(is_digit(decimal(j)[k - name.len() - 1]));
        }
    }
    assert(a.len() > 0 && a[0] != '/');
    assert(b.len() > 0 && b[0] != '/');
    if worktree_path_spec(dir, name, i) == worktree_path_spec(dir, name, j) {
        let pa = worktree_path_spec(dir, name, i);
        if dir.len() == 0 || dir.last() == '/' {
            assert(a =~= pa.subrange(dir.len() as int, pa.len() as int));
            assert(b =~= pa.subrange(dir.len() as int, pa.len() as int));
        } else {
            assert(a =~= pa.subrange((dir.len() + 1) as int, pa.len() as int));
            assert(b =~= pa.subrange((dir.len() + 1) as int, pa.len() as int));
        }
        lemma_indexed_name_injective(name, i, j);
    }
}


/// Law: a worktree lies under the `worktrees` directory of the data directory it was made
/// from: its path is that directory, a `/` unless the directory already ends with one,
/// `worktrees/` and the worktree's name. With the non-empty data directory that
/// `worktree_path` promises, it is never the bare `worktrees/<name>-<index>` of a path
/// relative to wherever the daemon runs. (A repository name that begins with `/` would
/// make the name an absolute path of its own.)
pub proof fn law_worktree_under_data_dir(data_dir: Seq<char>, name: Seq<char>, index: nat)
    requires
        data_dir.len() > 0,
        name.len() == 0 || name[0] != '/',
    ensures
        ({
            let sep = if data_dir.last() == '/' {
                seq![]
            } else {
                seq!['/']
            };
            worktree_path_spec(worktrees_dir_spec(data_dir), name, index) == data_dir + sep
                + "worktrees/"@ + indexed_name(name, index)
        }),
        worktree_path_spec(worktrees_dir_spec(data_dir), name, index) != "worktrees/"@
            + indexed_name(name, index),
{
    reveal_strlit("worktrees");
    reveal_strlit("worktrees/");
    reveal_strlit("-");
    let w = worktrees_dir_spec(data_dir);
    let n = indexed_name(name, index);
    lemma_decimal_canonical(index);
    if name.len() > 0 {
        assert(n[0] == name[0]);
    } else {
        assert(n[0] == '-');
    }
    assert(w =~= data_dir + (if data_dir.last() == '/' {
        seq![]
    } else {
        seq!['/']
    }) + "worktrees"@);
    assert(w.last() == 's');
    let sep = if data_dir.last() == '/' {
        seq![]
    } else {
        seq!['/']
    };
    let full = worktree_path_spec(w, name, index);
    assert(full =~= data_dir + sep + "worktrees/"@ + n);
    assert(full.len() > ("worktrees/"@ + n).len());
}

} // verus!
