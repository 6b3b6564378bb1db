//! What the daemon reports: the table of what each worker is doing, and the output an
//! executor streams into a task's comment.
use vstd::prelude::*;
use vstd::string::*;
use crate::text::{pad_right, push_dashes, push_padded, repeat_char};
use crate::work_db::Task;

verus! {

/// Text ordering: lexicographic by code point, which is how `String`'s `Ord` orders
/// (UTF-8 keeps code point order).
pub open spec fn seq_lt(a: Seq<char>, b: Seq<char>) -> bool
    decreases a.len(),
{
    if a.len() == 0 {
        b.len() > 0
    } else if b.len() == 0 {
        false
    } else if a[0] != b[0] {
        (a[0] as u32) < (b[0] as u32)
    } else {
        seq_lt(a.drop_first(), b.drop_first())
    }
}

proof fn lemma_char_u32_injective(x: char, y: char)
    ensures
        (x as u32 == y as u32) ==> x == y,
{
}

/// `seq_lt` is a strict total order.
pub proof fn lemma_seq_lt_total(a: Seq<char>, b: Seq<char>)
    ensures
        !seq_lt(a, a),
        seq_lt(a, b) ==> !seq_lt(b, a),
        a != b ==> seq_lt(a, b) || seq_lt(b, a),
    decreases a.len(),
{
    if a.len() > 0 && b.len() > 0 {
        lemma_char_u32_injective(a[0], b[0]);
        lemma_seq_lt_total(a.drop_first(), b.drop_first());
        if a[0] == b[0] && a != b {
            assert(a.drop_first() != b.drop_first()) by {
                if a.drop_first() == b.drop_first() {
                    assert forall|i: int| 0 <= i < a.len() implies a[i] == b[i] by {
                        if i > 0 {
                            assert(a[i] == a.drop_first()[i - 1]);
                            assert(b[i] == b.drop_first()[i - 1]);
                        }
                    }
                    assert(a =~= b);
                }
            }
        }
    } else if a.len() > 0 {
        lemma_seq_lt_total(a.drop_first(), a.drop_first());
    } else if b.len() == 0 {
        assert(a =~= b);
    }
}

/// `seq_lt` is transitive.
pub proof fn lemma_seq_lt_trans(a: Seq<char>, b: Seq<char>, c: Seq<char>)
    requires
        seq_lt(a, b),
        seq_lt(b, c),
    ensures
        seq_lt(a, c),
    decreases a.len(),
{
    if a.len() > 0 && b.len() > 0 && c.len() > 0 {
        if a[0] == b[0] && b[0] == c[0] {
            lemma_seq_lt_trans(a.drop_first(), b.drop_first(), c.drop_first());
        }
    }
}

/// Compares two texts by `seq_lt`.
pub fn key_less(a: &str, b: &str) -> (r: bool)
    ensures
        r == seq_lt(a@, b@),
{
    let n = a.unicode_len();
    let m = b.unicode_len();
    let mut i: usize = 0;
    assert(a@.skip(0) =~= a@);
    assert(b@.skip(0) =~= b@);
    while i < n && i < m
        invariant
            n == a@.len(),
            m == b@.len(),
            i <= n,
            i <= m,
            seq_lt(a@, b@) == seq_lt(a@.skip(i as int), b@.skip(i as int)),
        decreases n - i,
    {
        let x = a.get_char(i);
        let y = b.get_char(i);
        if x != y {
            proof {
                lemma_char_u32_injective(x, y);
            }
            return (x as u32) < (y as u32);
        }
        assert(a@.skip(i as int).drop_first() =~= a@.skip(i + 1));
        assert(b@.skip(i as int).drop_first() =~= b@.skip(i + 1));
        i = i + 1;
    }
    i < m
}

/// Number of bytes of the UTF-8 encoding of `c`.
pub open spec fn utf8_width(c: char) -> nat {
    let u = c as u32;
    if u < 0x80 {
        1
    } else if u < 0x800 {
        2
    } else if u < 0x10000 {
        3
    } else {
        4
    }
}

/// Number of bytes of the UTF-8 encoding of `s` (what `str::len` gives).
pub open spec fn byte_len(s: Seq<char>) -> nat
    decreases s.len(),
{
    if s.len() == 0 {
        0
    } else {
        byte_len(s.drop_last()) + utf8_width(s.last())
    }
}

proof fn lemma_byte_len_take_step(s: Seq<char>, i: int)
    requires
        0 <= i < s.len(),
    ensures
        byte_len(s.take(i + 1)) == byte_len(s.take(i)) + utf8_width(s[i]),
{
    assert(s.take(i + 1).drop_last() =~= s.take(i));
}

proof fn lemma_byte_len_mono(s: Seq<char>, i: int, j: int)
    requires
        0 <= i <= j <= s.len(),
    ensures
        byte_len(s.take(i)) + (j - i) <= byte_len(s.take(j)),
    decreases j - i,
{
    if i < j {
        lemma_byte_len_mono(s, i, j - 1);
        lemma_byte_len_take_step(s, j - 1);
    }
}

/// Whether a prefix of `s` takes exactly `n` bytes (so slicing `s` at byte `n` is allowed).
pub open spec fn is_byte_boundary(s: Seq<char>, n: nat) -> bool {
    exists|k: int| 0 <= k <= s.len() && byte_len(#[trigger] s.take(k)) == n
}

/// The number of characters of `s` that take exactly `n` bytes.
pub open spec fn boundary_index(s: Seq<char>, n: nat) -> int {
    choose|k: int| 0 <= k <= s.len() && byte_len(#[trigger] s.take(k)) == n
}

/// The first `n` bytes of `s` (as `&s[..n]` gives them).
pub open spec fn byte_prefix(s: Seq<char>, n: nat) -> Seq<char> {
    s.take(boundary_index(s, n))
}

proof fn lemma_boundary_unique(s: Seq<char>, n: nat, k: int)
    requires
        0 <= k <= s.len(),
        byte_len(s.take(k)) == n,
    ensures
        is_byte_boundary(s, n),
        boundary_index(s, n) == k,
{
    assert(is_byte_boundary(s, n));
    let c = boundary_index(s, n);
    if c < k {
        lemma_byte_len_mono(s, c, k);
    } else if k < c {
        lemma_byte_len_mono(s, k, c);
    }
}

fn char_width(c: char) -> (w: usize)
    ensures
        w == utf8_width(c),
{
    let u = c as u32;
    if u < 0x80 {
        1
    } else if u < 0x800 {
        2
    } else if u < 0x10000 {
        3
    } else {
        4
    }
}

/// Whether `s` takes more than `limit` bytes.
pub fn exceeds_bytes(s: &str, limit: usize) -> (b: bool)
    requires
        limit < usize::MAX - 4,
    ensures
        b == (byte_len(s@) > limit),
{
    let n = s.unicode_len();
    let mut acc: usize = 0;
    let mut i: usize = 0;
    while i < n
        invariant
            n == s@.len(),
            i <= n,
            limit < usize::MAX - 4,
            acc == byte_len(s@.take(i as int)),
            acc <= limit,
        decreases n - i,
    {
        proof {
            lemma_byte_len_take_step(s@, i as int);
        }
        acc = acc + char_width(s.get_char(i));
        i = i + 1;
        if acc > limit {
            proof {
                lemma_byte_len_mono(s@, i as int, n as int);
                assert(s@.take(n as int) =~= s@);
            }
            return true;
        }
    }
    assert(s@.take(n as int) =~= s@);
    false
}

/// The first `n` bytes of `s`, which must end on a character boundary.
pub fn prefix_bytes(s: &str, n: usize) -> (r: String)
    requires
        is_byte_boundary(s@, n as nat),
    ensures
        r@ == byte_prefix(s@, n as nat),
{
    let len = s.unicode_len();
    let ghost k = boundary_index(s@, n as nat);
    let mut acc: usize = 0;
    let mut i: usize = 0;
    proof {
        lemma_boundary_unique(s@, n as nat, k);
    }
    while acc < n
        invariant
            len == s@.len(),
            0 <= k <= len,
            byte_len(s@.take(k)) == n,
            i <= len,
            acc == byte_len(s@.take(i as int)),
            acc <= n,
            i <= k,
        decreases len - i,
    {
        proof {
            if i >= k {
                lemma_byte_len_mono(s@, k, i as int);
            }
            lemma_byte_len_take_step(s@, i as int);
            lemma_byte_len_mono(s@, i + 1, k);
        }
        acc = acc + char_width(s.get_char(i));
        i = i + 1;
    }
    proof {
        if i < k {
            lemma_byte_len_mono(s@, i as int, k);
        }
    }
    assert(i == k);
    String::from_str(s.substring_char(0, i))
}

/// Whether a prefix of `s` takes exactly `n` bytes (`s.is_char_boundary(n)` for `n` up to
/// the length).
pub fn byte_boundary(s: &str, n: usize) -> (b: bool)
    requires
        n < usize::MAX - 4,
    ensures
        b == is_byte_boundary(s@, n as nat),
{
    let len = s.unicode_len();
    let mut acc: usize = 0;
    let mut i: usize = 0;
    while acc < n && i < len
        invariant
            len == s@.len(),
            n < usize::MAX - 4,
            i <= len,
            acc == byte_len(s@.take(i as int)),
            i > 0 ==> byte_len(s@.take(i - 1)) < n,
        decreases len - i,
    {
        proof {
            lemma_byte_len_take_step(s@, i as int);
        }
        acc = acc + char_width(s.get_char(i));
        i = i + 1;
    }
    if acc == n {
        proof {
            lemma_boundary_unique(s@, n as nat, i as int);
        }
        true
    } else {
        proof {
            if is_byte_boundary(s@, n as nat) {
                let k = boundary_index(s@, n as nat);
                if k < i {
                    lemma_byte_len_mono(s@, k, i - 1);
                } else if k > i {
                    lemma_byte_len_mono(s@, i as int, k);
                }
            }
        }
        false
    }
}

/// `s` cut to fit a column: beyond `limit` bytes it is its first `keep` bytes and `...`.
pub open spec fn truncated(s: Seq<char>, limit: nat, keep: nat) -> Seq<char> {
    if byte_len(s) > limit {
        byte_prefix(s, keep) + "..."@
    } else {
        s
    }
}

/// Whether `s` can be cut as `truncated` does without splitting a character.
pub open spec fn can_truncate(s: Seq<char>, limit: nat, keep: nat) -> bool {
    byte_len(s) > limit ==> is_byte_boundary(s, keep)
}

fn truncate(s: &str, limit: usize, keep: usize) -> (r: String)
    requires
        limit < usize::MAX - 4,
        can_truncate(s@, limit as nat, keep as nat),
    ensures
        r@ == truncated(s@, limit as nat, keep as nat),
{
    if exceeds_bytes(s, limit) {
        let mut r = prefix_bytes(s, keep);
        r.append("...");
        r
    } else {
        String::from_str(s)
    }
}

/// What a worker is doing: the key it reports under and the task it executes, if any.
#[derive(Debug)]
pub struct WorkerStatus {
    pub key: String,
    pub task: Option<Task>,
}

/// A worker's status as plain values: its key and the id and title of its task.
pub struct StatusSpec {
    pub key: Seq<char>,
    pub task: Option<(Seq<char>, Seq<char>)>,
}

impl View for WorkerStatus {
    type V = StatusSpec;

    open spec fn view(&self) -> StatusSpec {
        StatusSpec {
            key: self.key@,
            task: match self.task {
                Some(t) => Some((t.id@, t.title@)),
                None => None,
            },
        }
    }
}

/// The issue column of a task: its id and title.
pub open spec fn issue_text(task: (Seq<char>, Seq<char>)) -> Seq<char> {
    task.0 + " "@ + task.1
}

/// The table's row for a worker: the key cut to 20 bytes, its status, and for an
/// executing worker the issue cut to 47 bytes.
pub open spec fn row_text(s: StatusSpec) -> Seq<char> {
    let key = pad_right(truncated(s.key, 20, 17), 20);
    match s.task {
        Some(t) => key + " | "@ + pad_right("Executing"@, 10) + " | "@ + truncated(
            issue_text(t),
            47,
            44,
        ) + "\n"@,
        None => key + " | "@ + pad_right("Idle"@, 10) + " | -\n"@,
    }
}

/// The rows, in order.
pub open spec fn rows_text(rows: Seq<StatusSpec>) -> Seq<char>
    decreases rows.len(),
{
    if rows.len() == 0 {
        seq![]
    } else {
        rows_text(rows.drop_last()) + row_text(rows.last())
    }
}

/// The heading of the table and the rule under it.
pub open spec fn table_head() -> Seq<char> {
    "\n"@ + pad_right("Repository"@, 20) + " | "@ + pad_right("Status"@, 10) + " | Issue\n"@
        + repeat_char('-', 20) + "-+-"@ + repeat_char('-', 10) + "-+-"@ + repeat_char('-', 50)
        + "\n"@
}

/// Whether a worker's key and issue can be cut for the table without splitting a character.
pub open spec fn fits_table(s: StatusSpec) -> bool {
    &&& can_truncate(s.key, 20, 17)
    &&& s.task is Some ==> can_truncate(issue_text(s.task->0), 47, 44)
}

/// Whether a worker's key and issue can be cut for the table (see `fits_table`).
pub fn fits_in_table(w: &WorkerStatus) -> (b: bool)
    ensures
        b == fits_table(w@),
{
    let key_ok = !exceeds_bytes(w.key.as_str(), 20) || byte_boundary(w.key.as_str(), 17);
    match &w.task {
        Some(t) => {
            let mut issue = t.id.clone();
            issue.append(" ");
            issue.append(t.title.as_str());
            key_ok && (!exceeds_bytes(issue.as_str(), 47) || byte_boundary(issue.as_str(), 44))
        },
        None => key_ok,
    }
}

/// The statuses as plain values.
pub open spec fn status_views(s: Seq<WorkerStatus>) -> Seq<StatusSpec> {
    s.map_values(|w: WorkerStatus| w@)
}

/// `order` lists each position below `n` exactly once.
pub open spec fn is_permutation(order: Seq<usize>, n: nat) -> bool {
    &&& order.len() == n
    &&& order.no_duplicates()
    &&& forall|k: int| 0 <= k < order.len() ==> #[trigger] order[k] < n
}

/// `order` lists the statuses by strictly increasing key.
pub open spec fn sorted_by_key(order: Seq<usize>, s: Seq<StatusSpec>) -> bool {
    forall|a: int, b: int|
        0 <= a < b < order.len() ==> seq_lt(#[trigger] s[order[a] as int].key, #[trigger] s[order[b] as int].key)
}

/// No two statuses share a key.
pub open spec fn distinct_keys(s: Seq<StatusSpec>) -> bool {
    forall|i: int, j: int| 0 <= i < j < s.len() ==> s[i].key != s[j].key
}

/// The positions of the statuses ordered by key.
pub fn order_by_key(entries: &Vec<WorkerStatus>) -> (order: Vec<usize>)
    requires
        distinct_keys(status_views(entries@)),
    ensures
        is_permutation(order@, entries@.len()),
        sorted_by_key(order@, status_views(entries@)),
{
    let ghost s = status_views(entries@);
    let mut order: Vec<usize> = Vec::new();
    let n = entries.len();
    let mut i: usize = 0;
    while i < n
        invariant
            n == entries@.len(),
            s == status_views(entries@),
            distinct_keys(s),
            i <= n,
            order@.len() == i,
            order@.no_duplicates(),
            forall|k: int| 0 <= k < order@.len() ==> #[trigger] order@[k] < i,
            sorted_by_key(order@, s),
        decreases n - i,
    {
        let key = entries[i].key.as_str();
        assert(s[i as int].key == key@);
        let mut pos: usize = 0;
        while pos < i && key_less(entries[order[pos]].key.as_str(), key)
            invariant
                n == entries@.len(),
                s == status_views(entries@),
                i < n,
                pos <= i,
                order@.len() == i,
                forall|k: int| 0 <= k < order@.len() ==> #[trigger] order@[k] < i,
                forall|k: int| 0 <= k < pos ==> seq_lt(#[trigger] s[order@[k] as int].key, key@),
            decreases i - pos,
        {
            assert(s[order@[pos as int] as int].key == entries@[order@[pos as int] as int].key@);
            pos = pos + 1;
        }
        proof {
            if pos < i {
                let o = order@[pos as int] as int;
                assert(s[o].key == entries@[o].key@);
                assert(o != i);
                lemma_seq_lt_total(s[o].key, key@);
            }
        }
        let ghost old_order = order@;
        order.insert(pos, i);
        assert(order@ == old_order.insert(pos as int, i));
        assert forall|a: int, b: int| 0 <= a < b < order@.len() implies seq_lt(
            #[trigger] s[order@[a] as int].key,
            #[trigger] s[order@[b] as int].key,
        ) by {
            if a < pos && b == pos {
            } else if a == pos && b > pos {
                let o = old_order[pos as int] as int;
                if b > pos + 1 {
                    assert(seq_lt(s[o].key, s[old_order[b - 1] as int].key));
                    lemma_seq_lt_trans(key@, s[o].key, s[old_order[b - 1] as int].key);
                }
            } else if a < pos && b > pos {
                assert(seq_lt(s[old_order[a] as int].key, s[old_order[b - 1] as int].key));
            } else if a > pos {
                assert(seq_lt(s[old_order[a - 1] as int].key, s[old_order[b - 1] as int].key));
            }
        }
        assert forall|k: int| 0 <= k < order@.len() implies #[trigger] order@[k] < i + 1 by {
            if k < pos {
                assert(order@[k] == old_order[k]);
            } else if k > pos {
                assert(order@[k] == old_order[k - 1]);
            }
        }
        assert(order@.no_duplicates()) by {
            assert forall|a: int, b: int| 0 <= a < b < order@.len() implies order@[a] != order@[b] by {
                if a == pos {
                    assert(order@[b] == old_order[b - 1]);
                } else if b == pos {
                    assert(order@[a] == old_order[a]);
                } else {
                    let a2 = if a < pos { a } else { a - 1 };
                    let b2 = if b < pos { b } else { b - 1 };
                    assert(order@[a] == old_order[a2]);
                    assert(order@[b] == old_order[b2]);
                }
            }
        }
        i = i + 1;
    }
    order
}

fn row(w: &WorkerStatus) -> (r: String)
    requires
        fits_table(w@),
    ensures
        r@ == row_text(w@),
{
    let key = truncate(w.key.as_str(), 20, 17);
    let mut r = String::new();
    push_padded(&mut r, key.as_str(), 20);
    r.append(" | ");
    match &w.task {
        Some(t) => {
            push_padded(&mut r, "Executing", 10);
            r.append(" | ");
            let mut issue = t.id.clone();
            issue.append(" ");
            issue.append(t.title.as_str());
            let cut = truncate(issue.as_str(), 47, 44);
            r.append(cut.as_str());
            r.append("\n");
        },
        None => {
            push_padded(&mut r, "Idle", 10);
            r.append(" | -\n");
        },
    }
    r
}

/// The status table: nothing when there are no workers, else a heading and one row per
/// worker, ordered by key.
pub fn status_table(entries: &Vec<WorkerStatus>) -> (t: Option<String>)
    requires
        distinct_keys(status_views(entries@)),
        forall|i: int| 0 <= i < entries@.len() ==> fits_table(#[trigger] entries@[i]@),
    ensures
        entries@.len() == 0 ==> t is None,
        entries@.len() > 0 ==> exists|order: Seq<usize>|
            {
                &&& is_permutation(order, entries@.len())
                &&& sorted_by_key(order, status_views(entries@))
                &&& t matches Some(text) && text@ == table_head() + rows_text(
                    order.map_values(|k: usize| status_views(entries@)[k as int]),
                )
            },
{
    if entries.len() == 0 {
        return None;
    }
    let ghost s = status_views(entries@);
    let order = order_by_key(entries);
    let mut t = String::new();
    t.append("\n");
    push_padded(&mut t, "Repository", 20);
    t.append(" | ");
    push_padded(&mut t, "Status", 10);
    t.append(" | Issue\n");
    push_dashes(&mut t, 20);
    t.append("-+-");
    push_dashes(&mut t, 10);
    t.append("-+-");
    push_dashes(&mut t, 50);
    t.append("\n");
    assert(t@ =~= table_head());
    let ghost head = t@;
    let n = order.len();
    let mut i: usize = 0;
    while i < n
        invariant
            n == order@.len(),
            n == entries@.len(),
            s == status_views(entries@),
            i <= n,
            forall|k: int| 0 <= k < order@.len() ==> #[trigger] order@[k] < n,
            forall|k: int| 0 <= k < entries@.len() ==> fits_table(#[trigger] entries@[k]@),
            t@ == head + rows_text(order@.take(i as int).map_values(|k: usize| s[k as int])),
        decreases n - i,
    {
        let w = &entries[order[i]];
        assert(fits_table(entries@[order@[i as int] as int]@));
        let r = row(w);
        t.append(r.as_str());
        let ghost rows = order@.take(i + 1).map_values(|k: usize| s[k as int]);
        assert(rows.drop_last() =~= order@.take(i as int).map_values(|k: usize| s[k as int]));
        assert(rows.last() == s[order@[i as int] as int]);
        i = i + 1;
    }
    assert(order@.take(n as int) =~= order@);
    Some(t)
}

/// The status table (see `status_table`) when every worker's key and issue can be cut
/// for it, else the position of the first worker whose cannot.
pub fn checked_status_table(entries: &Vec<WorkerStatus>) -> (r: Result<Option<String>, usize>)
    requires
        distinct_keys(status_views(entries@)),
    ensures
        r is Ok <==> forall|i: int| 0 <= i < entries@.len() ==> fits_table(#[trigger] entries@[i]@),
        r matches Err(i) ==> i < entries@.len() && !fits_table(entries@[i as int]@) && forall|j: int|
            0 <= j < i ==> fits_table(#[trigger] entries@[j]@),
        r matches Ok(t) ==> (entries@.len() == 0 ==> t is None),
        r matches Ok(t) ==> (entries@.len() > 0 ==> exists|order: Seq<usize>|
            {
                &&& is_permutation(order, entries@.len())
                &&& sorted_by_key(order, status_views(entries@))
                &&& t matches Some(text) && text@ == table_head() + rows_text(
                    order.map_values(|k: usize| status_views(entries@)[k as int]),
                )
            }),
{
    let mut i: usize = 0;
    while i < entries.len()
        invariant
            i <= entries@.len(),
            forall|j: int| 0 <= j < i ==> fits_table(#[trigger] entries@[j]@),
        decreases entries@.len() - i,
    {
        if !fits_in_table(&entries[i]) {
            return Err(i);
        }
        i = i + 1;
    }
    Ok(status_table(entries))
}

/// Law: no status table is refused when every key longer than 20 bytes can be cut after
/// its first 17 bytes and every issue (id, space, title) longer than 47 bytes after its
/// first 44, all at character boundaries.
pub proof fn law_status_table_not_refused(s: Seq<StatusSpec>)
    requires
        forall|i: int|
            0 <= i < s.len() ==> (byte_len(#[trigger] s[i].key) > 20 ==> is_byte_boundary(
                s[i].key,
                17,
            )),
        forall|i: int|
            0 <= i < s.len() && #[trigger] s[i].task is Some && byte_len(issue_text(s[i].task->0))
                > 47 ==> is_byte_boundary(issue_text(s[i].task->0), 44),
    ensures
        forall|i: int| 0 <= i < s.len() ==> fits_table(#[trigger] s[i]),
{
    assert forall|i: int| 0 <= i < s.len() implies fits_table(#[trigger] s[i]) by {
        assert(byte_len(s[i].key) > 20 ==> is_byte_boundary(s[i].key, 17));
    }
}

/// The output streamed into a task's comment: every chunk, each ended by a newline.
pub open spec fn stream_text(chunks: Seq<Seq<char>>) -> Seq<char>
    decreases chunks.len(),
{
    if chunks.len() == 0 {
        seq![]
    } else {
        stream_text(chunks.drop_last()) + chunks.last() + "\n"@
    }
}

/// What an executor has streamed so far, for the comment that shows it.
pub struct StreamAccumulator {
    pub text: String,
    pub chunks: Ghost<Seq<Seq<char>>>,
}

impl StreamAccumulator {
    /// Nothing streamed yet.
    pub fn new() -> (a: Self)
        ensures
            a.chunks@ == Seq::<Seq<char>>::empty(),
            a.text@ == stream_text(a.chunks@),
    {
        StreamAccumulator { text: String::new(), chunks: Ghost(Seq::empty()) }
    }

    /// Adds a chunk of output (a line), ended by a newline.
    pub fn push_chunk(&mut self, chunk: &str)
        requires
            old(self).text@ == stream_text(old(self).chunks@),
        ensures
            final(self).chunks@ == old(self).chunks@.push(chunk@),
            final(self).text@ == stream_text(final(self).chunks@),
            final(self).text@ == old(self).text@ + chunk@ + "\n"@,
    {
        self.text.append(chunk);
        self.text.append("\n");
        let ghost c = self.chunks@.push(chunk@);
        self.chunks = Ghost(c);
        assert(c.drop_last() =~= old(self).chunks@);
    }

    /// On each tick: the text to put in the comment, when there is any.
    pub fn tick_update(&self) -> (u: Option<String>)
        ensures
            self.text@.len() == 0 ==> u is None,
            self.text@.len() > 0 ==> (u matches Some(b) && b@ == self.text@),
    {
        if self.text.as_str().unicode_len() == 0 {
            None
        } else {
            Some(self.text.clone())
        }
    }

    /// At the end of the stream: the last update of the comment (when there is text) and
    /// the whole text.
    pub fn finish(self) -> (r: (Option<String>, String))
        ensures
            r.1@ == self.text@,
            self.text@.len() == 0 ==> r.0 is None,
            self.text@.len() > 0 ==> (r.0 matches Some(b) && b@ == self.text@),
    {
        let u = self.tick_update();
        (u, self.text)
    }
}

} // verus!

verus! {

/// `utf8_width` is the length of the UTF-8 encoding of the character.
pub proof fn lemma_width_is_encoding_len(c: char)
    ensures
        vstd::utf8::encode_scalar(c as u32).len() == utf8_width(c),
{
    let u = c as u32;
    assert(u <= 0x10FFFF);
    assert(!(0xD800 <= u <= 0xDFFF));
}

proof fn lemma_byte_len_front(s: Seq<char>)
    requires
        s.len() > 0,
    ensures
        byte_len(s) == utf8_width(s[0]) + byte_len(s.drop_first()),
    decreases s.len(),
{
    if s.len() > 1 {
        lemma_byte_len_front(s.drop_last());
        assert(s.drop_last().drop_first() =~= s.drop_first().drop_last());
        assert(s.drop_first().last() == s.last());
        assert(s.drop_last()[0] == s[0]);
        assert(byte_len(s.drop_first()) == byte_len(s.drop_first().drop_last()) + utf8_width(
            s.drop_first().last(),
        ));
    } else {
        assert(s.drop_last().len() == 0);
        assert(s.drop_first().len() == 0);
        assert(byte_len(s.drop_last()) == 0);
        assert(byte_len(s.drop_first()) == 0);
        assert(s.last() == s[0]);
    }
}

/// `byte_len` is the length of the UTF-8 encoding of the text, which is what `str::len` gives.
pub proof fn lemma_byte_len_is_utf8_len(s: Seq<char>)
    ensures
        byte_len(s) == vstd::utf8::encode_utf8(s).len(),
    decreases s.len(),
{
    if s.len() > 0 {
        lemma_byte_len_front(s);
        lemma_width_is_encoding_len(s[0]);
        lemma_byte_len_is_utf8_len(s.drop_first());
    }
}

} // verus!
