//! The partition overview: the nodes of each partition from `sinfo`, with
//! the running jobs from `squeue` counted against them.
use vstd::prelude::*;
use crate::client::{blank, cpu_alloc_spec, gres_local_spec, opt_string_view, parse_cpu_alloc, parse_gpu_gres_local};
use crate::error::SlurmError;
use crate::gpu::{opt_parse, str_opt_view};
use crate::order::{lemma_lt_irreflexive, lemma_lt_transitive, locate, seq_lt, strictly_sorted};
use crate::pattern::{group_of, regex_captures_of, regex_compiles, regex_extract_single, regex_is_valid};
use crate::text::{chars_of, lines, lines_of, lower, lower_chars, parse_u32, same_chars, split_char, split_on, string_of, trim, trim_chars, views};

verus! {

/// A node of a partition, as the overview shows it.
#[derive(Debug, PartialEq, Eq)]
pub struct PartitionNodeInfo {
    pub node: String,
    pub cpu_idle: u32,
    pub cpu_total: u32,
    pub jobs: u32,
    pub mem: String,
    pub gpu_idle: u32,
    pub gpu_total: u32,
    pub gpu_type: Option<String>,
}

/// The GPU and CPU nodes of one partition, each in order of node name.
#[derive(Debug, PartialEq, Eq)]
pub struct PartitionInfoSection {
    pub partition: String,
    pub gpu_nodes: Vec<PartitionNodeInfo>,
    pub cpu_nodes: Vec<PartitionNodeInfo>,
}

/// The partitions, in order of name.
#[derive(Debug, PartialEq, Eq)]
pub struct PartitionInfoData {
    pub partitions: Vec<PartitionInfoSection>,
}

pub struct PartNodeView {
    pub node: Seq<char>,
    pub cpu_idle: u32,
    pub cpu_total: u32,
    pub jobs: u32,
    pub mem: Seq<char>,
    pub gpu_idle: u32,
    pub gpu_total: u32,
    pub gpu_type: Option<Seq<char>>,
}

impl View for PartitionNodeInfo {
    type V = PartNodeView;

    open spec fn view(&self) -> PartNodeView {
        PartNodeView {
            node: self.node@,
            cpu_idle: self.cpu_idle,
            cpu_total: self.cpu_total,
            jobs: self.jobs,
            mem: self.mem@,
            gpu_idle: self.gpu_idle,
            gpu_total: self.gpu_total,
            gpu_type: opt_string_view(self.gpu_type),
        }
    }
}

pub open spec fn info_views(s: Seq<PartitionNodeInfo>) -> Seq<PartNodeView> {
    s.map_values(|x: PartitionNodeInfo| x@)
}

/// The nodes of each partition, by partition name and node name.
pub type PartitionTable = Map<Seq<char>, Map<Seq<char>, PartNodeView>>;

// ---------------------------------------------------------------------------
// Reading the node rows
// ---------------------------------------------------------------------------

/// A node row of `sinfo -o '%N|%C|%G|%m'` (one partition, `fixed`) or
/// `sinfo -o '%N|%P|%C|%G|%m'`: its partition and node, or nothing when it
/// has too few fields.
pub open spec fn node_row(l: Seq<char>, fixed: Option<Seq<char>>) -> Option<(Seq<char>, PartNodeView)> {
    let p = split_char(l, '|');
    let fields: Option<(Seq<char>, Seq<char>, Seq<char>, Seq<char>, Seq<char>)> = match fixed {
        Some(f) => if p.len() < 4 {
            None
        } else {
            Some((p[0], f, p[1], p[2], p[3]))
        },
        None => if p.len() < 5 {
            None
        } else {
            Some((p[0], p[1], p[2], p[3], p[4]))
        },
    };
    match fields {
        None => None,
        Some((node, partition, cpu, gres, mem)) => {
            let c = cpu_alloc_spec(cpu);
            let g = gres_local_spec(gres);
            Some(
                (
                    partition,
                    PartNodeView {
                        node,
                        cpu_idle: c.1,
                        cpu_total: c.3,
                        jobs: 0,
                        mem,
                        gpu_idle: g.0,
                        gpu_total: g.0,
                        gpu_type: g.1,
                    },
                ),
            )
        },
    }
}

/// The table with `info` stored under its partition and node name.
pub open spec fn table_insert(m: PartitionTable, partition: Seq<char>, info: PartNodeView) -> PartitionTable {
    let inner = if m.contains_key(partition) {
        m[partition]
    } else {
        Map::empty()
    };
    m.insert(partition, inner.insert(info.node, info))
}

/// The table of the node rows, or the first row with too few fields.
pub open spec fn node_table(ls: Seq<Seq<char>>, fixed: Option<Seq<char>>) -> Result<
    PartitionTable,
    Seq<char>,
>
    decreases ls.len(),
{
    if ls.len() == 0 {
        Ok(Map::empty())
    } else {
        match node_table(ls.drop_last(), fixed) {
            Err(l) => Err(l),
            Ok(m) => {
                let l = ls.last();
                if blank(l) {
                    Ok(m)
                } else {
                    match node_row(l, fixed) {
                        None => Err(l),
                        Some((p, info)) => Ok(table_insert(m, p, info)),
                    }
                }
            },
        }
    }
}

// ---------------------------------------------------------------------------
// Counting the running jobs
// ---------------------------------------------------------------------------

pub open spec fn usage_pattern() -> Seq<char> {
    "gpu:\\w*:?(\\d+)"@
}

/// The GPUs a job uses, read from its lower-cased GRES field (zero when none is given).
pub open spec fn used_gpus(gres: Seq<char>) -> u32 {
    match opt_parse(group_of(regex_captures_of(usage_pattern(), lower(gres)), 1)) {
        Some(n) => n,
        None => 0,
    }
}

/// A node with one more job, of which `used` GPUs are busy.
pub open spec fn bump(info: PartNodeView, used: u32) -> PartNodeView {
    PartNodeView {
        jobs: (info.jobs + 1) as u32,
        gpu_idle: (info.gpu_total - if used < info.gpu_total {
            used
        } else {
            info.gpu_total
        }) as u32,
        ..info
    }
}

/// The table after a job on `node` that uses `used` GPUs: the node is counted
/// in every partition that holds it.
pub open spec fn apply_node(m: PartitionTable, node: Seq<char>, used: u32) -> PartitionTable {
    Map::new(
        |p: Seq<char>| m.contains_key(p),
        |p: Seq<char>|
            if m[p].contains_key(node) {
                m[p].insert(node, bump(m[p][node], used))
            } else {
                m[p]
            },
    )
}

/// The node names of a comma-separated list, trimmed, blanks left out.
pub open spec fn list_tokens(pieces: Seq<Seq<char>>) -> Seq<Seq<char>>
    decreases pieces.len(),
{
    if pieces.len() == 0 {
        Seq::empty()
    } else {
        let t = list_tokens(pieces.drop_last());
        if trim(pieces.last()).len() == 0 {
            t
        } else {
            t.push(trim(pieces.last()))
        }
    }
}

pub open spec fn apply_nodes(m: PartitionTable, nodes: Seq<Seq<char>>, used: u32) -> PartitionTable
    decreases nodes.len(),
{
    if nodes.len() == 0 {
        m
    } else {
        apply_node(apply_nodes(m, nodes.drop_last(), used), nodes.last(), used)
    }
}

/// The node names a job row of `squeue -o '%i|%N|%b|%M'` lists.
pub open spec fn row_nodes(p: Seq<Seq<char>>) -> Seq<Seq<char>> {
    list_tokens(split_char(p[1], ','))
}

/// The table after the job rows, or the first non-blank row with fewer than
/// four fields.
pub open spec fn job_table(m: PartitionTable, ls: Seq<Seq<char>>) -> Result<PartitionTable, Seq<char>>
    decreases ls.len(),
{
    if ls.len() == 0 {
        Ok(m)
    } else {
        match job_table(m, ls.drop_last()) {
            Err(l) => Err(l),
            Ok(t) => {
                let l = ls.last();
                let p = split_char(l, '|');
                if blank(l) {
                    Ok(t)
                } else if p.len() < 4 {
                    Err(l)
                } else {
                    Ok(apply_nodes(t, row_nodes(p), used_gpus(p[2])))
                }
            },
        }
    }
}

/// Whether every non-blank job row has at least four fields.
pub open spec fn job_rows_ok(ls: Seq<Seq<char>>) -> bool
    decreases ls.len(),
{
    if ls.len() == 0 {
        true
    } else {
        job_rows_ok(ls.drop_last()) && (blank(ls.last()) || split_char(ls.last(), '|').len() >= 4)
    }
}

/// How often `n` occurs among `toks`.
pub open spec fn token_count(toks: Seq<Seq<char>>, n: Seq<char>) -> nat
    decreases toks.len(),
{
    if toks.len() == 0 {
        0
    } else {
        token_count(toks.drop_last(), n) + if toks.last() == n {
            1nat
        } else {
            0nat
        }
    }
}

/// How often the job rows list node `n`, counted up to the first non-blank
/// row with fewer than four fields.
pub open spec fn node_mentions(ls: Seq<Seq<char>>, n: Seq<char>) -> nat
    decreases ls.len(),
{
    if ls.len() == 0 {
        0
    } else {
        node_mentions(ls.drop_last(), n) + if job_rows_ok(ls) && !blank(ls.last()) {
            token_count(row_nodes(split_char(ls.last(), '|')), n)
        } else {
            0
        }
    }
}

/// Whether counting the job rows keeps every node's job count within
/// `u32::MAX`: each node of the table is listed at most that often before
/// the counting ends (it never starts where a node row or the usage pattern
/// is refused).
pub open spec fn node_counts_fit(nodes_stdout: Seq<char>, jobs_stdout: Seq<char>, fixed: Option<Seq<char>>) -> bool {
    match node_table(lines(nodes_stdout), fixed) {
        Err(_) => true,
        Ok(m) => regex_compiles(usage_pattern()) ==> forall|p: Seq<char>, n: Seq<char>|
            #![trigger m[p].contains_key(n)]
            m.contains_key(p) && m[p].contains_key(n) ==> node_mentions(lines(jobs_stdout), n) <= u32::MAX,
    }
}

/// Why the overview cannot be made.
pub enum PartitionFailure {
    NodeRow(Seq<char>),
    RegexRefused,
    JobsRow(Seq<char>),
}

/// The table of the overview, or why it cannot be made: a bad node row, then
/// a refused usage pattern, then a bad job row.
pub open spec fn partition_table(
    nodes_stdout: Seq<char>,
    jobs_stdout: Seq<char>,
    fixed: Option<Seq<char>>,
) -> Result<PartitionTable, PartitionFailure> {
    match node_table(lines(nodes_stdout), fixed) {
        Err(l) => Err(PartitionFailure::NodeRow(l)),
        Ok(m) => if !regex_compiles(usage_pattern()) {
            Err(PartitionFailure::RegexRefused)
        } else {
            match job_table(m, lines(jobs_stdout)) {
                Err(l) => Err(PartitionFailure::JobsRow(l)),
                Ok(t) => Ok(t),
            }
        },
    }
}


// ---------------------------------------------------------------------------
// The table in memory: sorted names with their nodes
//
// vstd states what a `BTreeMap` does only for keys whose order it specifies,
// and partition and node names are strings, so the table keeps its names in
// sorted vectors searched with `order::locate`.
// ---------------------------------------------------------------------------

/// Sorted node names and their records, holding exactly the entries of `inner`.
pub open spec fn node_table_ok(
    names: Seq<Seq<char>>,
    infos: Seq<PartNodeView>,
    inner: Map<Seq<char>, PartNodeView>,
) -> bool {
    &&& strictly_sorted(names)
    &&& names.len() == infos.len()
    &&& forall|k: Seq<char>| inner.contains_key(k) <==> names.contains(k)
    &&& forall|j: int| 0 <= j < names.len() ==> inner[#[trigger] names[j]] == infos[j]
    &&& forall|j: int| 0 <= j < names.len() ==> #[trigger] infos[j].node == names[j]
}

proof fn lemma_sorted_insert(ks: Seq<Seq<char>>, j: int, k: Seq<char>)
    requires
        strictly_sorted(ks),
        0 <= j <= ks.len(),
        forall|i: int| 0 <= i < j ==> seq_lt(#[trigger] ks[i], k),
        forall|i: int| j <= i < ks.len() ==> seq_lt(k, #[trigger] ks[i]),
    ensures
        strictly_sorted(ks.insert(j, k)),
{
    let n = ks.insert(j, k);
    assert forall|x: int, y: int| 0 <= x < y < n.len() implies seq_lt(#[trigger] n[x], #[trigger] n[y]) by {
        if y < j {
            assert(n[x] == ks[x] && n[y] == ks[y]);
        } else if y == j {
            assert(n[x] == ks[x]);
        } else if x < j {
            assert(n[x] == ks[x] && n[y] == ks[y - 1]);
            lemma_lt_transitive(ks[x], k, ks[y - 1]);
        } else if x == j {
            assert(n[y] == ks[y - 1]);
        } else {
            assert(n[x] == ks[x - 1] && n[y] == ks[y - 1]);
        }
    }
}

proof fn lemma_sorted_distinct(ks: Seq<Seq<char>>, x: int, y: int)
    requires
        strictly_sorted(ks),
        0 <= x < ks.len(),
        0 <= y < ks.len(),
        x != y,
    ensures
        ks[x] != ks[y],
{
    if x < y {
        assert(seq_lt(ks[x], ks[y]));
    } else {
        assert(seq_lt(ks[y], ks[x]));
    }
    lemma_lt_irreflexive(ks[x]);
}

/// Stores `info` under its node name.
fn node_table_set(
    names: &mut Vec<Vec<char>>,
    infos: &mut Vec<PartitionNodeInfo>,
    info: PartitionNodeInfo,
    Ghost(inner): Ghost<Map<Seq<char>, PartNodeView>>,
)
    requires
        node_table_ok(views(old(names)@), info_views(old(infos)@), inner),
    ensures
        node_table_ok(views(final(names)@), info_views(final(infos)@), inner.insert(info@.node, info@)),
{
    let ghost ks = views(names@);
    let ghost vs = info_views(infos@);
    let key = chars_of(info.node.as_str());
    let (found, j) = locate(names, key.as_slice());
    assert(node_table_ok(ks, vs, inner));
    let ghost inner2 = inner.insert(info@.node, info@);
    if found {
        let ghost iv = info@;
        assert(ks[j as int] == iv.node);
        infos.set(j, info);
        assert(info_views(infos@) =~= vs.update(j as int, iv));
        assert(views(names@) == ks);
        assert forall|k: Seq<char>| inner2.contains_key(k) <==> ks.contains(k) by {
            if k == iv.node {
                assert(ks.contains(k));
            }
        }
        assert forall|x: int| 0 <= x < ks.len() implies inner2[#[trigger] ks[x]] == info_views(infos@)[x] by {
            if x != j {
                lemma_sorted_distinct(ks, x, j as int);
            }
        }
    } else {
        let ghost iv = info@;
        names.insert(j, key);
        infos.insert(j, info);
        assert(views(names@) =~= ks.insert(j as int, iv.node));
        assert(info_views(infos@) =~= vs.insert(j as int, iv));
        proof {
            lemma_sorted_insert(ks, j as int, iv.node);
        }
        let ghost nk = views(names@);
        let ghost nv = info_views(infos@);
        assert forall|k: Seq<char>| inner2.contains_key(k) implies nk.contains(k) by {
            if k == iv.node {
                assert(nk[j as int] == k);
            } else {
                assert(inner.contains_key(k));
                assert(ks.contains(k));
                let x = choose|x: int| 0 <= x < ks.len() && ks[x] == k;
                if x < j {
                    assert(nk[x] == k);
                } else {
                    assert(nk[x + 1] == k);
                }
            }
        }
        assert forall|k: Seq<char>| nk.contains(k) implies inner2.contains_key(k) by {
            let x = choose|x: int| 0 <= x < nk.len() && nk[x] == k;
            if x < j {
                assert(ks[x] == k);
                assert(ks.contains(k));
            } else if x > j {
                assert(ks[x - 1] == k);
                assert(ks.contains(k));
            }
        }
        assert forall|x: int| 0 <= x < nk.len() implies inner2[#[trigger] nk[x]] == nv[x] && nv[x].node == nk[x] by {
            if x < j {
                assert(nk[x] == ks[x] && nv[x] == vs[x]);
                assert(ks[x] != iv.node);
            } else if x > j {
                assert(nk[x] == ks[x - 1] && nv[x] == vs[x - 1]);
                assert(ks[x - 1] != iv.node);
            }
        }
    }
}

/// Counts a job on `name` (when the table holds it) that uses `used` GPUs.
fn node_table_bump(
    names: &Vec<Vec<char>>,
    infos: &mut Vec<PartitionNodeInfo>,
    name: &[char],
    used: u32,
    Ghost(inner): Ghost<Map<Seq<char>, PartNodeView>>,
)
    requires
        node_table_ok(views(names@), info_views(old(infos)@), inner),
        inner.contains_key(name@) ==> inner[name@].jobs < u32::MAX,
    ensures
        node_table_ok(
            views(names@),
            info_views(final(infos)@),
            if inner.contains_key(name@) {
                inner.insert(name@, bump(inner[name@], used))
            } else {
                inner
            },
        ),
{
    let ghost ks = views(names@);
    let ghost vs = info_views(infos@);
    let (found, j) = locate(names, name);
    assert(node_table_ok(ks, vs, inner));
    if found {
        assert(ks[j as int] == name@);
        assert(inner[ks[j as int]] == vs[j as int]);
        assert(inner[name@] == vs[j as int]);
        assert(ks.contains(name@));
        assert(inner.contains_key(name@));
        assert(vs[j as int] == infos@[j as int]@);
        let old_info = &infos[j];
        let take = if used < old_info.gpu_total { used } else { old_info.gpu_total };
        let updated = PartitionNodeInfo {
            node: old_info.node.clone(),
            cpu_idle: old_info.cpu_idle,
            cpu_total: old_info.cpu_total,
            jobs: old_info.jobs + 1,
            mem: old_info.mem.clone(),
            gpu_idle: old_info.gpu_total - take,
            gpu_total: old_info.gpu_total,
            gpu_type: match &old_info.gpu_type {
                Some(t) => Some(t.clone()),
                None => None,
            },
        };
        let ghost uv = updated@;
        assert(uv == bump(inner[name@], used));
        infos.set(j, updated);
        assert(info_views(infos@) =~= vs.update(j as int, uv));
        let ghost inner2 = inner.insert(name@, uv);
        assert forall|x: int| 0 <= x < ks.len() implies inner2[#[trigger] ks[x]] == info_views(infos@)[x] by {
            if x != j {
                lemma_sorted_distinct(ks, x, j as int);
            }
        }
        assert forall|k: Seq<char>| inner2.contains_key(k) <==> ks.contains(k) by {
            if k == name@ {
                assert(ks.contains(k));
            }
        }
    } else {
        assert(!inner.contains_key(name@));
    }
}


pub open spec fn nested_names(v: Seq<Vec<Vec<char>>>) -> Seq<Seq<Seq<char>>> {
    v.map_values(|x: Vec<Vec<char>>| views(x@))
}

pub open spec fn nested_infos(v: Seq<Vec<PartitionNodeInfo>>) -> Seq<Seq<PartNodeView>> {
    v.map_values(|x: Vec<PartitionNodeInfo>| info_views(x@))
}

/// Sorted partition names, each with its node table, holding exactly `m`.
pub open spec fn table_ok(
    parts: Seq<Seq<char>>,
    names: Seq<Seq<Seq<char>>>,
    infos: Seq<Seq<PartNodeView>>,
    m: PartitionTable,
) -> bool {
    &&& strictly_sorted(parts)
    &&& parts.len() == names.len()
    &&& parts.len() == infos.len()
    &&& forall|k: Seq<char>| m.contains_key(k) <==> parts.contains(k)
    &&& forall|i: int| 0 <= i < parts.len() ==> node_table_ok(names[i], infos[i], m[#[trigger] parts[i]])
}

/// Stores `info` under `partition` and its node name.
fn table_set(
    parts: &mut Vec<Vec<char>>,
    tnames: &mut Vec<Vec<Vec<char>>>,
    tinfos: &mut Vec<Vec<PartitionNodeInfo>>,
    partition: Vec<char>,
    info: PartitionNodeInfo,
    Ghost(m): Ghost<PartitionTable>,
)
    requires
        table_ok(views(old(parts)@), nested_names(old(tnames)@), nested_infos(old(tinfos)@), m),
    ensures
        table_ok(
            views(final(parts)@),
            nested_names(final(tnames)@),
            nested_infos(final(tinfos)@),
            table_insert(m, partition@, info@),
        ),
{
    let ghost ps = views(parts@);
    let ghost ns = nested_names(tnames@);
    let ghost is = nested_infos(tinfos@);
    let ghost iv = info@;
    let ghost m2 = table_insert(m, partition@, iv);
    assert(table_ok(ps, ns, is, m));
    let (found, i) = locate(parts, partition.as_slice());
    if found {
        assert(ps[i as int] == partition@);
        assert(m.contains_key(partition@)) by {
            assert(ps.contains(partition@));
        }
        let mut n = tnames.remove(i);
        let mut f = tinfos.remove(i);
        assert(views(n@) == ns[i as int]);
        assert(info_views(f@) == is[i as int]);
        node_table_set(&mut n, &mut f, info, Ghost(m[partition@]));
        let ghost nn = views(n@);
        let ghost nf = info_views(f@);
        tnames.insert(i, n);
        tinfos.insert(i, f);
        assert(nested_names(tnames@) =~= ns.update(i as int, nn));
        assert(nested_infos(tinfos@) =~= is.update(i as int, nf));
        assert(views(parts@) == ps);
        assert forall|x: int| 0 <= x < ps.len() implies node_table_ok(
            nested_names(tnames@)[x],
            nested_infos(tinfos@)[x],
            m2[#[trigger] ps[x]],
        ) by {
            if x != i {
                lemma_sorted_distinct(ps, x, i as int);
            }
        }
        assert forall|k: Seq<char>| m2.contains_key(k) <==> ps.contains(k) by {
            if k == partition@ {
                assert(ps.contains(k));
            }
        }
    } else {
        let mut n: Vec<Vec<char>> = Vec::new();
        let mut f: Vec<PartitionNodeInfo> = Vec::new();
        assert(views(n@) =~= Seq::<Seq<char>>::empty());
        assert(info_views(f@) =~= Seq::<PartNodeView>::empty());
        assert(node_table_ok(views(n@), info_views(f@), Map::<Seq<char>, PartNodeView>::empty()));
        node_table_set(&mut n, &mut f, info, Ghost(Map::<Seq<char>, PartNodeView>::empty()));
        assert(!m.contains_key(partition@));
        let ghost nn = views(n@);
        let ghost nf = info_views(f@);
        let ghost key = partition@;
        parts.insert(i, partition);
        tnames.insert(i, n);
        tinfos.insert(i, f);
        assert(views(parts@) =~= ps.insert(i as int, key));
        assert(nested_names(tnames@) =~= ns.insert(i as int, nn));
        assert(nested_infos(tinfos@) =~= is.insert(i as int, nf));
        proof {
            lemma_sorted_insert(ps, i as int, key);
        }
        let ghost np = views(parts@);
        assert forall|k: Seq<char>| m2.contains_key(k) implies np.contains(k) by {
            if k == key {
                assert(np[i as int] == k);
            } else {
                assert(ps.contains(k));
                let x = choose|x: int| 0 <= x < ps.len() && ps[x] == k;
                if x < i {
                    assert(np[x] == k);
                } else {
                    assert(np[x + 1] == k);
                }
            }
        }
        assert forall|k: Seq<char>| np.contains(k) implies m2.contains_key(k) by {
            let x = choose|x: int| 0 <= x < np.len() && np[x] == k;
            if x < i {
                assert(ps[x] == k);
                assert(ps.contains(k));
            } else if x > i {
                assert(ps[x - 1] == k);
                assert(ps.contains(k));
            }
        }
        assert forall|x: int| 0 <= x < np.len() implies node_table_ok(
            nested_names(tnames@)[x],
            nested_infos(tinfos@)[x],
            m2[#[trigger] np[x]],
        ) by {
            if x < i {
                assert(np[x] == ps[x]);
                assert(ps[x] != key);
            } else if x > i {
                assert(np[x] == ps[x - 1]);
                assert(ps[x - 1] != key);
            }
        }
    }
}

/// Counts a job that uses `used` GPUs on `node` in every partition holding it.
fn table_bump(
    parts: &Vec<Vec<char>>,
    tnames: &mut Vec<Vec<Vec<char>>>,
    tinfos: &mut Vec<Vec<PartitionNodeInfo>>,
    node: &[char],
    used: u32,
    Ghost(m): Ghost<PartitionTable>,
)
    requires
        table_ok(views(parts@), nested_names(old(tnames)@), nested_infos(old(tinfos)@), m),
        forall|p: Seq<char>|
            m.contains_key(p) && #[trigger] m[p].contains_key(node@) ==> m[p][node@].jobs < u32::MAX,
    ensures
        table_ok(
            views(parts@),
            nested_names(final(tnames)@),
            nested_infos(final(tinfos)@),
            apply_node(m, node@, used),
        ),
{
    let ghost ps = views(parts@);
    let ghost target = apply_node(m, node@, used);
    assert(table_ok(ps, nested_names(tnames@), nested_infos(tinfos@), m));
    let mut i: usize = 0;
    while i < parts.len()
        invariant
            ps == views(parts@),
            target == apply_node(m, node@, used),
            table_ok(ps, nested_names(old(tnames)@), nested_infos(old(tinfos)@), m),
            forall|p: Seq<char>|
                m.contains_key(p) && #[trigger] m[p].contains_key(node@) ==> m[p][node@].jobs
                    < u32::MAX,
            i <= ps.len(),
            tnames@.len() == ps.len(),
            tinfos@.len() == ps.len(),
            forall|x: int| 0 <= x < ps.len() ==> #[trigger] nested_names(tnames@)[x] == nested_names(old(tnames)@)[x],
            forall|x: int|
                0 <= x < i ==> node_table_ok(
                    nested_names(tnames@)[x],
                    nested_infos(tinfos@)[x],
                    target[#[trigger] ps[x]],
                ),
            forall|x: int| i <= x < ps.len() ==> #[trigger] nested_infos(tinfos@)[x] == nested_infos(old(tinfos)@)[x],
        decreases ps.len() - i,
    {
        let ghost before_names = nested_names(tnames@);
        let ghost before_infos = nested_infos(tinfos@);
        let ghost p = ps[i as int];
        assert(ps.contains(p));
        assert(m.contains_key(p));
        let ghost inner = m[p];
        assert(before_infos[i as int] == nested_infos(old(tinfos)@)[i as int]);
        assert(before_names[i as int] == nested_names(old(tnames)@)[i as int]);
        assert(node_table_ok(before_names[i as int], before_infos[i as int], inner));
        let mut f = tinfos.remove(i);
        assert(info_views(f@) == before_infos[i as int]);
        assert(views(tnames@[i as int]@) == before_names[i as int]);
        node_table_bump(&tnames[i], &mut f, node, used, Ghost(inner));
        let ghost nf = info_views(f@);
        tinfos.insert(i, f);
        assert(nested_infos(tinfos@) =~= before_infos.update(i as int, nf));
        assert(target[p] == if inner.contains_key(node@) {
            inner.insert(node@, bump(inner[node@], used))
        } else {
            inner
        });
        i += 1;
    }
    assert forall|k: Seq<char>| target.contains_key(k) <==> ps.contains(k) by {}
    assert(table_ok(ps, nested_names(tnames@), nested_infos(tinfos@), target));
}


// ---------------------------------------------------------------------------
// The overview
// ---------------------------------------------------------------------------

pub open spec fn node_names(list: Seq<PartNodeView>) -> Seq<Seq<char>> {
    list.map_values(|n: PartNodeView| n.node)
}

/// `list` holds, in order of node name, exactly the nodes of `inner` that
/// have GPUs (`gpu`) or have none (`!gpu`).
pub open spec fn nodes_listed(list: Seq<PartNodeView>, inner: Map<Seq<char>, PartNodeView>, gpu: bool) -> bool {
    &&& strictly_sorted(node_names(list))
    &&& forall|x: int|
        0 <= x < list.len() ==> inner.contains_key(#[trigger] list[x].node) && inner[list[x].node]
            == list[x] && (list[x].gpu_total > 0) == gpu
    &&& forall|k: Seq<char>|
        inner.contains_key(k) && (inner[k].gpu_total > 0) == gpu ==> node_names(list).contains(k)
}

pub open spec fn section_names(s: Seq<PartitionInfoSection>) -> Seq<Seq<char>> {
    s.map_values(|x: PartitionInfoSection| x.partition@)
}

/// The overview shows the table: its partitions in order of name, each with
/// its GPU nodes and its CPU nodes in order of node name.
pub open spec fn overview_of(d: PartitionInfoData, m: PartitionTable) -> bool {
    let names = section_names(d.partitions@);
    &&& strictly_sorted(names)
    &&& forall|k: Seq<char>| m.contains_key(k) <==> names.contains(k)
    &&& forall|i: int|
        0 <= i < names.len() ==> nodes_listed(
            info_views(d.partitions@[i].gpu_nodes@),
            m[#[trigger] names[i]],
            true,
        ) && nodes_listed(info_views(d.partitions@[i].cpu_nodes@), m[names[i]], false)
}

/// The error reported for a failure.
pub open spec fn partition_error(e: SlurmError, f: PartitionFailure) -> bool {
    match f {
        PartitionFailure::NodeRow(l) => e matches SlurmError::PartitionNodeRow(x) && x@ == l,
        PartitionFailure::RegexRefused => e == SlurmError::PartitionRegexInvalid,
        PartitionFailure::JobsRow(l) => e matches SlurmError::PartitionJobsRow(x) && x@ == l,
    }
}

fn copy_info(i: &PartitionNodeInfo) -> (r: PartitionNodeInfo)
    ensures
        r@ == i@,
{
    PartitionNodeInfo {
        node: i.node.clone(),
        cpu_idle: i.cpu_idle,
        cpu_total: i.cpu_total,
        jobs: i.jobs,
        mem: i.mem.clone(),
        gpu_idle: i.gpu_idle,
        gpu_total: i.gpu_total,
        gpu_type: match &i.gpu_type {
            Some(t) => Some(t.clone()),
            None => None,
        },
    }
}

/// The section of one partition from its node table.
#[verifier::spinoff_prover]
fn section_of(
    partition: &Vec<char>,
    names: &Vec<Vec<char>>,
    infos: &Vec<PartitionNodeInfo>,
    Ghost(inner): Ghost<Map<Seq<char>, PartNodeView>>,
) -> (r: PartitionInfoSection)
    requires
        node_table_ok(views(names@), info_views(infos@), inner),
    ensures
        r.partition@ == partition@,
        nodes_listed(info_views(r.gpu_nodes@), inner, true),
        nodes_listed(info_views(r.cpu_nodes@), inner, false),
{
    let ghost ks = views(names@);
    let ghost vs = info_views(infos@);
    let mut gpu_nodes: Vec<PartitionNodeInfo> = Vec::new();
    let mut cpu_nodes: Vec<PartitionNodeInfo> = Vec::new();
    let mut j: usize = 0;
    assert(node_names(info_views(gpu_nodes@)) =~= Seq::<Seq<char>>::empty());
    assert(node_names(info_views(cpu_nodes@)) =~= Seq::<Seq<char>>::empty());
    while j < infos.len()
        invariant
            ks == views(names@),
            vs == info_views(infos@),
            node_table_ok(ks, vs, inner),
            j <= vs.len(),
            strictly_sorted(node_names(info_views(gpu_nodes@))),
            strictly_sorted(node_names(info_views(cpu_nodes@))),
            forall|x: int|
                0 <= x < gpu_nodes@.len() ==> inner.contains_key(
                    #[trigger] info_views(gpu_nodes@)[x].node,
                ) && inner[info_views(gpu_nodes@)[x].node] == info_views(gpu_nodes@)[x]
                    && info_views(gpu_nodes@)[x].gpu_total > 0,
            forall|x: int|
                0 <= x < cpu_nodes@.len() ==> inner.contains_key(
                    #[trigger] info_views(cpu_nodes@)[x].node,
                ) && inner[info_views(cpu_nodes@)[x].node] == info_views(cpu_nodes@)[x]
                    && info_views(cpu_nodes@)[x].gpu_total == 0,
            forall|x: int, y: int|
                0 <= x < gpu_nodes@.len() && j <= y < ks.len() ==> seq_lt(
                    #[trigger] node_names(info_views(gpu_nodes@))[x],
                    #[trigger] ks[y],
                ),
            forall|x: int, y: int|
                0 <= x < cpu_nodes@.len() && j <= y < ks.len() ==> seq_lt(
                    #[trigger] node_names(info_views(cpu_nodes@))[x],
                    #[trigger] ks[y],
                ),
            forall|y: int|
                0 <= y < j ==> (vs[y].gpu_total > 0 ==> node_names(info_views(gpu_nodes@)).contains(
                    #[trigger] ks[y],
                )) && (vs[y].gpu_total == 0 ==> node_names(info_views(cpu_nodes@)).contains(ks[y])),
        decreases vs.len() - j,
    {
        assert(vs[j as int] == infos@[j as int]@);
        assert(vs[j as int].node == ks[j as int]);
        let ghost g0 = node_names(info_views(gpu_nodes@));
        let ghost c0 = node_names(info_views(cpu_nodes@));
        let c = copy_info(&infos[j]);
        let ghost cv = c@;
        assert(inner[ks[j as int]] == cv);
        assert(ks.contains(ks[j as int]));
        if infos[j].gpu_total > 0 {
            let ghost before = info_views(gpu_nodes@);
            gpu_nodes.push(c);
            assert(info_views(gpu_nodes@) =~= before.push(cv));
            assert(node_names(info_views(gpu_nodes@)) =~= node_names(before).push(cv.node));
            assert(node_names(info_views(gpu_nodes@))[before.len() as int] == ks[j as int]);
        } else {
            let ghost before = info_views(cpu_nodes@);
            cpu_nodes.push(c);
            assert(info_views(cpu_nodes@) =~= before.push(cv));
            assert(node_names(info_views(cpu_nodes@)) =~= node_names(before).push(cv.node));
            assert(node_names(info_views(cpu_nodes@))[before.len() as int] == ks[j as int]);
        }
        assert forall|x: int, y: int|
            0 <= x < gpu_nodes@.len() && j + 1 <= y < ks.len() implies seq_lt(
                #[trigger] node_names(info_views(gpu_nodes@))[x],
                #[trigger] ks[y],
            ) by {
            if x == gpu_nodes@.len() - 1 && infos@[j as int].gpu_total > 0 {
                assert(seq_lt(ks[j as int], ks[y]));
            }
        }
        assert forall|x: int, y: int|
            0 <= x < cpu_nodes@.len() && j + 1 <= y < ks.len() implies seq_lt(
                #[trigger] node_names(info_views(cpu_nodes@))[x],
                #[trigger] ks[y],
            ) by {
            if x == cpu_nodes@.len() - 1 && infos@[j as int].gpu_total == 0 {
                assert(seq_lt(ks[j as int], ks[y]));
            }
        }
        let ghost g1 = node_names(info_views(gpu_nodes@));
        let ghost c1 = node_names(info_views(cpu_nodes@));
        assert(g1.len() >= g0.len() && forall|x: int| 0 <= x < g0.len() ==> g1[x] == g0[x]);
        assert(c1.len() >= c0.len() && forall|x: int| 0 <= x < c0.len() ==> c1[x] == c0[x]);
        assert forall|y: int| 0 <= y < j + 1 implies (vs[y].gpu_total > 0 ==> g1.contains(
            #[trigger] ks[y],
        )) && (vs[y].gpu_total == 0 ==> c1.contains(ks[y])) by {
            if y < j {
                if vs[y].gpu_total > 0 {
                    assert(g0.contains(ks[y]));
                    let x = choose|x: int| 0 <= x < g0.len() && g0[x] == ks[y];
                    assert(g1[x] == ks[y]);
                } else {
                    assert(c0.contains(ks[y]));
                    let x = choose|x: int| 0 <= x < c0.len() && c0[x] == ks[y];
                    assert(c1[x] == ks[y]);
                }
            } else {
                if vs[y].gpu_total > 0 {
                    assert(g1[g0.len() as int] == ks[y]);
                } else {
                    assert(c1[c0.len() as int] == ks[y]);
                }
            }
        }
        j += 1;
    }
    assert forall|k: Seq<char>|
        inner.contains_key(k) && inner[k].gpu_total > 0 implies node_names(
        info_views(gpu_nodes@),
    ).contains(k) by {
        assert(ks.contains(k));
        let y = choose|y: int| 0 <= y < ks.len() && ks[y] == k;
        assert(inner[ks[y]] == vs[y]);
    }
    assert forall|k: Seq<char>|
        inner.contains_key(k) && inner[k].gpu_total == 0 implies node_names(
        info_views(cpu_nodes@),
    ).contains(k) by {
        assert(ks.contains(k));
        let y = choose|y: int| 0 <= y < ks.len() && ks[y] == k;
        assert(inner[ks[y]] == vs[y]);
    }
    PartitionInfoSection { partition: string_of(partition.as_slice()), gpu_nodes, cpu_nodes }
}

// ---------------------------------------------------------------------------
// Reading the node rows, in code
// ---------------------------------------------------------------------------

pub open spec fn chars_opt_view(o: Option<Vec<char>>) -> Option<Seq<char>> {
    match o {
        Some(f) => Some(f@),
        None => None,
    }
}

/// A node row, split on `|`: its partition and record, or `None` when it has
/// too few fields.
fn node_row_of(parts: &Vec<Vec<char>>, fixed: &Option<Vec<char>>, Ghost(l): Ghost<Seq<char>>) -> (r: Option<
    (Vec<char>, PartitionNodeInfo),
>)
    requires
        views(parts@) == split_char(l, '|'),
    ensures
        match (r, node_row(l, chars_opt_view(*fixed))) {
            (Some((p, info)), Some((q, v))) => p@ == q && info@ == v,
            (None, None) => true,
            _ => false,
        },
{
    let ghost pv = views(parts@);
    let (node, partition, cpu, gres, mem) = match fixed {
        Some(f) => {
            if parts.len() < 4 {
                return None;
            }
            assert(pv[0] == parts@[0]@ && pv[1] == parts@[1]@ && pv[2] == parts@[2]@ && pv[3] == parts@[3]@);
            (&parts[0], f, &parts[1], &parts[2], &parts[3])
        },
        None => {
            if parts.len() < 5 {
                return None;
            }
            assert(pv[0] == parts@[0]@ && pv[1] == parts@[1]@ && pv[2] == parts@[2]@ && pv[3] == parts@[3]@ && pv[4] == parts@[4]@);
            (&parts[0], &parts[1], &parts[2], &parts[3], &parts[4])
        },
    };
    let cpu_text = string_of(cpu.as_slice());
    let c = parse_cpu_alloc(cpu_text.as_str());
    let gres_text = string_of(gres.as_slice());
    let g = parse_gpu_gres_local(gres_text.as_str());
    let info = PartitionNodeInfo {
        node: string_of(node.as_slice()),
        cpu_idle: c.1,
        cpu_total: c.3,
        jobs: 0,
        mem: string_of(mem.as_slice()),
        gpu_idle: g.0,
        gpu_total: g.0,
        gpu_type: g.1,
    };
    let mut key: Vec<char> = Vec::new();
    crate::text::push_all(&mut key, partition.as_slice());
    Some((key, info))
}

proof fn lemma_node_table_idle(ls: Seq<Seq<char>>, fixed: Option<Seq<char>>)
    ensures
        node_table(ls, fixed) is Ok ==> forall|p: Seq<char>, n: Seq<char>|
            #![trigger (node_table(ls, fixed)->Ok_0)[p].contains_key(n)]
            (node_table(ls, fixed)->Ok_0).contains_key(p) && (node_table(ls, fixed)->Ok_0)[p].contains_key(n)
                ==> (node_table(ls, fixed)->Ok_0)[p][n].jobs == 0,
    decreases ls.len(),
{
    if ls.len() > 0 {
        lemma_node_table_idle(ls.drop_last(), fixed);
    }
}

proof fn lemma_node_table_err_sticks(ls: Seq<Seq<char>>, fixed: Option<Seq<char>>, k: int, l: Seq<char>)
    requires
        0 <= k <= ls.len(),
        node_table(ls.take(k), fixed) == Err::<PartitionTable, Seq<char>>(l),
    ensures
        node_table(ls, fixed) == Err::<PartitionTable, Seq<char>>(l),
    decreases ls.len() - k,
{
    if k < ls.len() {
        assert(ls.take(k + 1).drop_last() =~= ls.take(k));
        lemma_node_table_err_sticks(ls, fixed, k + 1, l);
    } else {
        assert(ls.take(k) == ls);
    }
}

/// The table of the node rows, held as sorted partition names with their
/// sorted node names and records.
fn read_node_rows(ls: &Vec<Vec<char>>, fixed: &Option<Vec<char>>) -> (r: Result<
    (Vec<Vec<char>>, Vec<Vec<Vec<char>>>, Vec<Vec<PartitionNodeInfo>>),
    SlurmError,
>)
    ensures
        match (r, node_table(views(ls@), chars_opt_view(*fixed))) {
            (Ok((ps, ns, is)), Ok(m)) => table_ok(views(ps@), nested_names(ns@), nested_infos(is@), m),
            (Err(e), Err(l)) => e matches SlurmError::PartitionNodeRow(x) && x@ == l,
            _ => false,
        },
{
    let ghost all = views(ls@);
    let ghost fv = chars_opt_view(*fixed);
    let mut parts: Vec<Vec<char>> = Vec::new();
    let mut tnames: Vec<Vec<Vec<char>>> = Vec::new();
    let mut tinfos: Vec<Vec<PartitionNodeInfo>> = Vec::new();
    let ghost mut cur: PartitionTable = Map::empty();
    assert(all.take(0) =~= Seq::<Seq<char>>::empty());
    assert(views(parts@) =~= Seq::<Seq<char>>::empty());
    assert(nested_names(tnames@) =~= Seq::<Seq<Seq<char>>>::empty());
    assert(nested_infos(tinfos@) =~= Seq::<Seq<PartNodeView>>::empty());
    let mut i: usize = 0;
    while i < ls.len()
        invariant
            all == views(ls@),
            fv == chars_opt_view(*fixed),
            i <= ls@.len(),
            node_table(all.take(i as int), fv) == Ok::<PartitionTable, Seq<char>>(cur),
            table_ok(views(parts@), nested_names(tnames@), nested_infos(tinfos@), cur),
        decreases ls@.len() - i,
    {
        let ghost prefix = all.take(i + 1);
        assert(prefix.drop_last() =~= all.take(i as int));
        assert(prefix.last() == ls@[i as int]@);
        let line = &ls[i];
        let t = trim_chars(line.as_slice());
        if t.len() > 0 {
            let fields = split_on(line.as_slice(), '|');
            match node_row_of(&fields, fixed, Ghost(line@)) {
                None => {
                    assert(node_table(prefix, fv) == Err::<PartitionTable, Seq<char>>(line@));
                    proof {
                        lemma_node_table_err_sticks(all, fv, i as int + 1, line@);
                    }
                    return Err(SlurmError::PartitionNodeRow(string_of(line.as_slice())));
                },
                Some((partition, info)) => {
                    let ghost pv = partition@;
                    let ghost iv = info@;
                    table_set(&mut parts, &mut tnames, &mut tinfos, partition, info, Ghost(cur));
                    proof {
                        cur = table_insert(cur, pv, iv);
                    }
                },
            }
        }
        i += 1;
    }
    assert(all.take(ls@.len() as int) == all);
    Ok((parts, tnames, tinfos))
}

// ---------------------------------------------------------------------------
// Counting the running jobs, in code
// ---------------------------------------------------------------------------

/// The GPUs a job uses, from its GRES field.
fn used_gpu_count(gres: &[char]) -> (r: u32)
    ensures
        r == used_gpus(gres@),
{
    let l = string_of(lower_chars(gres).as_slice());
    match regex_extract_single(l.as_str(), "gpu:\\w*:?(\\d+)") {
        Some(n) => match parse_u32(chars_of(n.as_str()).as_slice()) {
            Some(v) => v,
            None => 0,
        },
        None => 0,
    }
}

proof fn lemma_job_table_err_sticks(m: PartitionTable, ls: Seq<Seq<char>>, k: int, l: Seq<char>)
    requires
        0 <= k <= ls.len(),
        job_table(m, ls.take(k)) == Err::<PartitionTable, Seq<char>>(l),
    ensures
        job_table(m, ls) == Err::<PartitionTable, Seq<char>>(l),
    decreases ls.len() - k,
{
    if k < ls.len() {
        assert(ls.take(k + 1).drop_last() =~= ls.take(k));
        lemma_job_table_err_sticks(m, ls, k + 1, l);
    } else {
        assert(ls.take(k) == ls);
    }
}

/// The overview of the partitions: the node rows of
/// `sinfo -N -h -o '%N|%P|%C|%G|%m'` (or, for one partition `fixed_partition`,
/// `sinfo -p <partition> -N -h -o '%N|%C|%G|%m'`) grouped by partition, with
/// the running jobs of `squeue -t RUNNING -h -o '%i|%N|%b|%M'` counted on
/// each node they list and the GPUs of the last such job taken from the idle
/// count. Blank lines are skipped; a shorter row is an error.
#[verifier::spinoff_prover]
#[verifier::rlimit(40)]
pub fn parse_partition_info(nodes_stdout: &str, jobs_stdout: &str, fixed_partition: Option<&str>) -> (r:
    Result<PartitionInfoData, SlurmError>)
    requires
        node_counts_fit(nodes_stdout@, jobs_stdout@, str_opt_view(fixed_partition)),
    ensures
        match (r, partition_table(nodes_stdout@, jobs_stdout@, str_opt_view(fixed_partition))) {
            (Ok(d), Ok(m)) => overview_of(d, m),
            (Err(e), Err(f)) => partition_error(e, f),
            _ => false,
        },
{
    let fixed: Option<Vec<char>> = match fixed_partition {
        Some(f) => Some(chars_of(f)),
        None => None,
    };
    let ghost fv = str_opt_view(fixed_partition);
    assert(chars_opt_view(fixed) == fv);
    let node_lines = lines_of(chars_of(nodes_stdout).as_slice());
    let ghost m0 = node_table(lines(nodes_stdout@), fv);
    let (parts, mut tnames, mut tinfos) = match read_node_rows(&node_lines, &fixed) {
        Ok(t) => t,
        Err(e) => {
            return Err(e);
        },
    };
    let ghost base = m0->Ok_0;
    proof {
        lemma_node_table_idle(lines(nodes_stdout@), fv);
    }
    if !regex_is_valid("gpu:\\w*:?(\\d+)") {
        return Err(SlurmError::PartitionRegexInvalid);
    }
    let job_lines = lines_of(chars_of(jobs_stdout).as_slice());
    let ghost all = views(job_lines@);
    let ghost mut cur: PartitionTable = base;
    assert(all.take(0) =~= Seq::<Seq<char>>::empty());
    assert forall|p: Seq<char>, n: Seq<char>| base.contains_key(p) && #[trigger] base[p].contains_key(n) implies cur.contains_key(p)
        && cur[p].contains_key(n) && cur[p][n].jobs == node_mentions(all.take(0), n) by {
        assert(base[p][n].jobs == 0);
    }
    let mut i: usize = 0;
    while i < job_lines.len()
        invariant
            all == views(job_lines@),
            all == lines(jobs_stdout@),
            fv == str_opt_view(fixed_partition),
            node_table(lines(nodes_stdout@), fv) == Ok::<PartitionTable, Seq<char>>(base),
            regex_compiles(usage_pattern()),
            forall|p: Seq<char>, n: Seq<char>|
                base.contains_key(p) && #[trigger] base[p].contains_key(n) ==> node_mentions(all, n) <= u32::MAX,
            i <= all.len(),
            job_table(base, all.take(i as int)) == Ok::<PartitionTable, Seq<char>>(cur),
            table_ok(views(parts@), nested_names(tnames@), nested_infos(tinfos@), cur),
            same_nodes(base, cur),
            forall|p: Seq<char>, n: Seq<char>|
                base.contains_key(p) && #[trigger] base[p].contains_key(n) ==> cur[p][n].jobs == node_mentions(
                    all.take(i as int),
                    n,
                ),
        decreases all.len() - i,
    {
        let ghost prefix = all.take(i + 1);
        assert(prefix.drop_last() =~= all.take(i as int));
        assert(prefix.last() == job_lines@[i as int]@);
        proof {
            lemma_job_table_rows_ok(base, all.take(i as int));
        }
        let line = &job_lines[i];
        let t = trim_chars(line.as_slice());
        if t.len() > 0 {
            let fields = split_on(line.as_slice(), '|');
            let ghost fvs = views(fields@);
            if fields.len() < 4 {
                assert(job_table(base, prefix) == Err::<PartitionTable, Seq<char>>(line@));
                proof {
                    lemma_job_table_err_sticks(base, all, i as int + 1, line@);
                }
                return Err(SlurmError::PartitionJobsRow(string_of(line.as_slice())));
            }
            assert(fvs[1] == fields@[1]@ && fvs[2] == fields@[2]@);
            let used = used_gpu_count(fields[2].as_slice());
            let pieces = split_on(fields[1].as_slice(), ',');
            let ghost pv = views(pieces@);
            let ghost row_start = cur;
            assert(row_nodes(fvs) == list_tokens(pv));
            assert(job_rows_ok(prefix));
            assert forall|n: Seq<char>| #[trigger] node_mentions(prefix, n) == node_mentions(all.take(i as int), n)
                + token_count(list_tokens(pv), n) by {}
            assert forall|p: Seq<char>, n: Seq<char>| base.contains_key(p) && #[trigger] base[p].contains_key(n) implies node_mentions(
                all.take(i as int),
                n,
            ) + token_count(list_tokens(pv), n) <= u32::MAX by {
                assert(node_mentions(prefix, n) == node_mentions(all.take(i as int), n) + token_count(list_tokens(pv), n));
                lemma_mentions_prefix(all, i + 1, n);
            }
            assert(pv.take(0) =~= Seq::<Seq<char>>::empty());
            let mut k: usize = 0;
            while k < pieces.len()
                invariant
                    pv == views(pieces@),
                    k <= pv.len(),
                    cur == apply_nodes(row_start, list_tokens(pv.take(k as int)), used),
                    table_ok(views(parts@), nested_names(tnames@), nested_infos(tinfos@), cur),
                    same_nodes(base, cur),
                    forall|p: Seq<char>, n: Seq<char>|
                        base.contains_key(p) && #[trigger] base[p].contains_key(n) ==> node_mentions(
                            all.take(i as int),
                            n,
                        ) + token_count(list_tokens(pv), n) <= u32::MAX,
                    forall|p: Seq<char>, n: Seq<char>|
                        base.contains_key(p) && #[trigger] base[p].contains_key(n) ==> cur[p][n].jobs
                            == node_mentions(all.take(i as int), n) + token_count(list_tokens(pv.take(k as int)), n),
                decreases pv.len() - k,
            {
                let ghost step = pv.take(k + 1);
                assert(step.drop_last() =~= pv.take(k as int));
                assert(step.last() == pieces@[k as int]@);
                let tok = trim_chars(pieces[k].as_slice());
                if tok.len() > 0 {
                    let ghost before = cur;
                    let ghost toks = list_tokens(pv.take(k as int));
                    assert(list_tokens(step) == toks.push(tok@));
                    assert(list_tokens(step).drop_last() == toks);
                    proof {
                        lemma_tokens_count_prefix(pv, k + 1, tok@);
                    }
                    assert forall|p: Seq<char>|
                        before.contains_key(p) && #[trigger] before[p].contains_key(tok@) implies before[p][tok@].jobs
                            < u32::MAX by {
                        assert(base.contains_key(p));
                        assert(base[p].contains_key(tok@));
                    }
                    table_bump(&parts, &mut tnames, &mut tinfos, tok.as_slice(), used, Ghost(before));
                    proof {
                        lemma_apply_node_exact(before, tok@, used);
                        cur = apply_node(before, tok@, used);
                        assert forall|p: Seq<char>, n: Seq<char>| base.contains_key(p) implies (#[trigger] base[p].contains_key(n)
                            <==> cur[p].contains_key(n)) by {
                            assert(before.contains_key(p));
                            assert(base[p].contains_key(n) <==> before[p].contains_key(n));
                        }
                        assert forall|p: Seq<char>, n: Seq<char>|
                            base.contains_key(p) && #[trigger] base[p].contains_key(n) implies cur[p][n].jobs
                                == node_mentions(all.take(i as int), n) + token_count(list_tokens(step), n) by {
                            assert(before.contains_key(p));
                            assert(before[p].contains_key(n));
                        }
                    }
                } else {
                    assert(list_tokens(step) == list_tokens(pv.take(k as int)));
                }
                k += 1;
            }
            assert(pv.take(pv.len() as int) == pv);
            assert(job_table(base, prefix) == Ok::<PartitionTable, Seq<char>>(cur));
        } else {
            assert forall|n: Seq<char>| #[trigger] node_mentions(prefix, n) == node_mentions(all.take(i as int), n) by {}
        }
        i += 1;
    }
    assert(all.take(all.len() as int) == all);
    let ghost m = cur;
    let ghost ps = views(parts@);
    let mut sections: Vec<PartitionInfoSection> = Vec::new();
    let mut j: usize = 0;
    assert(section_names(sections@) =~= ps.take(0));
    while j < parts.len()
        invariant
            ps == views(parts@),
            table_ok(ps, nested_names(tnames@), nested_infos(tinfos@), m),
            j <= ps.len(),
            section_names(sections@) == ps.take(j as int),
            forall|x: int|
                0 <= x < j ==> nodes_listed(info_views(#[trigger] sections@[x].gpu_nodes@), m[ps[x]], true)
                    && nodes_listed(info_views(sections@[x].cpu_nodes@), m[ps[x]], false),
        decreases ps.len() - j,
    {
        assert(views(tnames@[j as int]@) == nested_names(tnames@)[j as int]);
        assert(info_views(tinfos@[j as int]@) == nested_infos(tinfos@)[j as int]);
        let s = section_of(&parts[j], &tnames[j], &tinfos[j], Ghost(m[ps[j as int]]));
        let ghost before = sections@;
        sections.push(s);
        assert(section_names(sections@) =~= ps.take(j + 1)) by {
            assert(section_names(sections@) =~= section_names(before).push(s.partition@));
        }
        j += 1;
    }
    assert(ps.take(ps.len() as int) == ps);
    Ok(PartitionInfoData { partitions: sections })
}

/// Whether the job rows list `name` at most `u32::MAX` times, counted up to
/// the first non-blank row with fewer than four fields.
fn mentions_fit(job_lines: &Vec<Vec<char>>, name: &[char]) -> (r: bool)
    ensures
        r == (node_mentions(views(job_lines@), name@) <= u32::MAX),
{
    let ghost all = views(job_lines@);
    let ghost nm = name@;
    let mut total: u64 = 0;
    let mut i: usize = 0;
    assert(all.take(0) =~= Seq::<Seq<char>>::empty());
    while i < job_lines.len()
        invariant
            all == views(job_lines@),
            nm == name@,
            i <= all.len(),
            job_rows_ok(all.take(i as int)),
            total == node_mentions(all.take(i as int), nm),
            total <= u32::MAX,
        decreases all.len() - i,
    {
        let ghost prefix = all.take(i + 1);
        assert(prefix.drop_last() =~= all.take(i as int));
        assert(prefix.last() == job_lines@[i as int]@);
        let line = &job_lines[i];
        let t = trim_chars(line.as_slice());
        if t.len() > 0 {
            let fields = split_on(line.as_slice(), '|');
            let ghost fvs = views(fields@);
            if fields.len() < 4 {
                assert(!job_rows_ok(prefix));
                assert(node_mentions(prefix, nm) == total);
                proof {
                    lemma_mentions_stop(all, i + 1, nm);
                }
                return true;
            }
            assert(fvs[1] == fields@[1]@);
            let pieces = split_on(fields[1].as_slice(), ',');
            let ghost pv = views(pieces@);
            assert(row_nodes(fvs) == list_tokens(pv));
            assert(job_rows_ok(prefix));
            let ghost start = total;
            assert(node_mentions(prefix, nm) == start + token_count(list_tokens(pv), nm));
            assert(pv.take(0) =~= Seq::<Seq<char>>::empty());
            let mut k: usize = 0;
            while k < pieces.len()
                invariant
                    pv == views(pieces@),
                    nm == name@,
                    k <= pv.len(),
                    total == start + token_count(list_tokens(pv.take(k as int)), nm),
                    total <= u32::MAX,
                    all == views(job_lines@),
                    i < all.len(),
                    node_mentions(all.take(i + 1), nm) == start + token_count(list_tokens(pv), nm),
                decreases pv.len() - k,
            {
                let ghost step = pv.take(k + 1);
                assert(step.drop_last() =~= pv.take(k as int));
                assert(step.last() == pieces@[k as int]@);
                let tok = trim_chars(pieces[k].as_slice());
                if tok.len() > 0 {
                    let ghost toks = list_tokens(pv.take(k as int));
                    assert(list_tokens(step) == toks.push(tok@));
                    assert(list_tokens(step).drop_last() == toks);
                    if same_chars(tok.as_slice(), name) {
                        total = total + 1;
                        if total > 4294967295 {
                            proof {
                                lemma_tokens_count_prefix(pv, k + 1, nm);
                                lemma_mentions_prefix(all, i + 1, nm);
                            }
                            return false;
                        }
                    }
                } else {
                    assert(list_tokens(step) == list_tokens(pv.take(k as int)));
                }
                k += 1;
            }
            assert(pv.take(pv.len() as int) == pv);
        } else {
            assert(job_rows_ok(prefix));
        }
        i += 1;
    }
    assert(all.take(all.len() as int) == all);
    true
}

/// Whether `parse_partition_info` can count every job row on these outputs
/// without a node's job count passing `u32::MAX`.
pub fn job_node_count_fits(nodes_stdout: &str, jobs_stdout: &str, fixed_partition: Option<&str>) -> (r: bool)
    ensures
        r == node_counts_fit(nodes_stdout@, jobs_stdout@, str_opt_view(fixed_partition)),
{
    let fixed: Option<Vec<char>> = match fixed_partition {
        Some(f) => Some(chars_of(f)),
        None => None,
    };
    let ghost fv = str_opt_view(fixed_partition);
    assert(chars_opt_view(fixed) == fv);
    let node_lines = lines_of(chars_of(nodes_stdout).as_slice());
    let (parts, tnames, tinfos) = match read_node_rows(&node_lines, &fixed) {
        Ok(t) => t,
        Err(_) => {
            return true;
        },
    };
    let ghost m = node_table(lines(nodes_stdout@), fv)->Ok_0;
    if !regex_is_valid("gpu:\\w*:?(\\d+)") {
        return true;
    }
    let job_lines = lines_of(chars_of(jobs_stdout).as_slice());
    let ghost all = views(job_lines@);
    let ghost ps = views(parts@);
    let ghost ns = nested_names(tnames@);
    assert(table_ok(ps, ns, nested_infos(tinfos@), m));
    let mut i: usize = 0;
    while i < parts.len()
        invariant
            all == views(job_lines@),
            all == lines(jobs_stdout@),
            regex_compiles(usage_pattern()),
            node_table(lines(nodes_stdout@), fv) == Ok::<PartitionTable, Seq<char>>(m),
            fv == str_opt_view(fixed_partition),
            ps == views(parts@),
            ns == nested_names(tnames@),
            table_ok(ps, ns, nested_infos(tinfos@), m),
            i <= ps.len(),
            forall|x: int, y: int|
                0 <= x < i && 0 <= y < ns[x].len() ==> node_mentions(all, #[trigger] ns[x][y]) <= u32::MAX,
        decreases ps.len() - i,
    {
        assert(views(tnames@[i as int]@) == ns[i as int]);
        let names = &tnames[i];
        let mut j: usize = 0;
        while j < names.len()
            invariant
                all == views(job_lines@),
                all == lines(jobs_stdout@),
                regex_compiles(usage_pattern()),
                node_table(lines(nodes_stdout@), fv) == Ok::<PartitionTable, Seq<char>>(m),
                fv == str_opt_view(fixed_partition),
                ps == views(parts@),
                ns == nested_names(tnames@),
                table_ok(ps, ns, nested_infos(tinfos@), m),
                names == tnames@[i as int],
                views(names@) == ns[i as int],
                i < ps.len(),
                j <= names@.len(),
                forall|x: int, y: int|
                    0 <= x < i && 0 <= y < ns[x].len() ==> node_mentions(all, #[trigger] ns[x][y]) <= u32::MAX,
                forall|y: int| 0 <= y < j ==> node_mentions(all, #[trigger] ns[i as int][y]) <= u32::MAX,
            decreases names@.len() - j,
        {
            assert(views(names@)[j as int] == names@[j as int]@);
            if !mentions_fit(&job_lines, names[j].as_slice()) {
                proof {
                    let p = ps[i as int];
                    let n = ns[i as int][j as int];
                    assert(ps.contains(p));
                    assert(node_table_ok(ns[i as int], nested_infos(tinfos@)[i as int], m[p]));
                    assert(ns[i as int].contains(n));
                    assert(m[p].contains_key(n));
                    assert(n == names@[j as int]@);
                    let mm = node_table(lines(nodes_stdout@), fv)->Ok_0;
                    if node_counts_fit(nodes_stdout@, jobs_stdout@, fv) {
                        assert(forall|p: Seq<char>, n: Seq<char>|
                            #![trigger mm[p].contains_key(n)]
                            mm.contains_key(p) && mm[p].contains_key(n) ==> node_mentions(lines(jobs_stdout@), n) <= u32::MAX);
                    }
                }
                return false;
            }
            j += 1;
        }
        i += 1;
    }
    assert forall|p: Seq<char>, n: Seq<char>| m.contains_key(p) && #[trigger] m[p].contains_key(n) implies node_mentions(
        all,
        n,
    ) <= u32::MAX by {
        assert(ps.contains(p));
        let x = choose|x: int| 0 <= x < ps.len() && ps[x] == p;
        assert(node_table_ok(ns[x], nested_infos(tinfos@)[x], m[ps[x]]));
        assert(ns[x].contains(n));
        let y = choose|y: int| 0 <= y < ns[x].len() && ns[x][y] == n;
        assert(node_mentions(all, ns[x][y]) <= u32::MAX);
    }
    true
}

/// The overview where `parse_partition_info` can count every job row, and
/// `None` where a node's job count would pass `u32::MAX`.
pub fn partition_info_checked(nodes_stdout: &str, jobs_stdout: &str, fixed_partition: Option<&str>) -> (r: Option<
    Result<PartitionInfoData, SlurmError>,
>)
    ensures
        r is None <==> !node_counts_fit(nodes_stdout@, jobs_stdout@, str_opt_view(fixed_partition)),
        r matches Some(x) ==> match (x, partition_table(nodes_stdout@, jobs_stdout@, str_opt_view(fixed_partition))) {
            (Ok(d), Ok(m)) => overview_of(d, m),
            (Err(e), Err(f)) => partition_error(e, f),
            _ => false,
        },
{
    if job_node_count_fits(nodes_stdout, jobs_stdout, fixed_partition) {
        Some(parse_partition_info(nodes_stdout, jobs_stdout, fixed_partition))
    } else {
        None
    }
}

// ---------------------------------------------------------------------------
// What the overview counts
// ---------------------------------------------------------------------------

/// The two tables hold the same partitions and nodes.
pub open spec fn same_nodes(a: PartitionTable, b: PartitionTable) -> bool {
    &&& forall|p: Seq<char>| #[trigger] a.contains_key(p) <==> b.contains_key(p)
    &&& forall|p: Seq<char>, n: Seq<char>|
        a.contains_key(p) ==> (#[trigger] a[p].contains_key(n) <==> b[p].contains_key(n))
}

proof fn lemma_job_table_rows_ok(m: PartitionTable, ls: Seq<Seq<char>>)
    ensures
        job_table(m, ls) is Ok ==> job_rows_ok(ls),
    decreases ls.len(),
{
    if ls.len() > 0 {
        lemma_job_table_rows_ok(m, ls.drop_last());
    }
}

proof fn lemma_mentions_prefix(ls: Seq<Seq<char>>, k: int, n: Seq<char>)
    requires
        0 <= k <= ls.len(),
    ensures
        node_mentions(ls.take(k), n) <= node_mentions(ls, n),
    decreases ls.len() - k,
{
    if k < ls.len() {
        assert(ls.take(k + 1).drop_last() =~= ls.take(k));
        lemma_mentions_prefix(ls, k + 1, n);
    } else {
        assert(ls.take(k) == ls);
    }
}

/// After a row with too few fields, no later row is counted.
proof fn lemma_mentions_stop(ls: Seq<Seq<char>>, k: int, n: Seq<char>)
    requires
        0 <= k <= ls.len(),
        !job_rows_ok(ls.take(k)),
    ensures
        !job_rows_ok(ls),
        node_mentions(ls, n) == node_mentions(ls.take(k), n),
    decreases ls.len() - k,
{
    if k < ls.len() {
        assert(ls.take(k + 1).drop_last() =~= ls.take(k));
        lemma_mentions_stop(ls, k + 1, n);
    } else {
        assert(ls.take(k) == ls);
    }
}

proof fn lemma_tokens_count_prefix(pieces: Seq<Seq<char>>, k: int, n: Seq<char>)
    requires
        0 <= k <= pieces.len(),
    ensures
        token_count(list_tokens(pieces.take(k)), n) <= token_count(list_tokens(pieces), n),
    decreases pieces.len() - k,
{
    if k < pieces.len() {
        let s = pieces.take(k + 1);
        assert(s.drop_last() =~= pieces.take(k));
        let t = list_tokens(pieces.take(k));
        if trim(s.last()).len() != 0 {
            assert(list_tokens(s).drop_last() =~= t);
        }
        lemma_tokens_count_prefix(pieces, k + 1, n);
    } else {
        assert(pieces.take(k) == pieces);
    }
}

/// One job on `node` adds one to that node's count and nothing else.
proof fn lemma_apply_node_exact(m: PartitionTable, node: Seq<char>, used: u32)
    requires
        forall|p: Seq<char>| m.contains_key(p) && #[trigger] m[p].contains_key(node) ==> m[p][node].jobs < u32::MAX,
    ensures
        same_nodes(m, apply_node(m, node, used)),
        forall|p: Seq<char>, n: Seq<char>|
            m.contains_key(p) && #[trigger] m[p].contains_key(n) ==> apply_node(m, node, used)[p][n].jobs
                == m[p][n].jobs + if n == node {
                1int
            } else {
                0int
            },
{
    let a = apply_node(m, node, used);
    assert forall|p: Seq<char>, n: Seq<char>| m.contains_key(p) implies (#[trigger] m[p].contains_key(n) <==> a[p].contains_key(n)) by {
        if m[p].contains_key(node) {
            assert(a[p] == m[p].insert(node, bump(m[p][node], used)));
        }
    }
    assert forall|p: Seq<char>, n: Seq<char>| m.contains_key(p) && #[trigger] m[p].contains_key(n) implies a[p][n].jobs
        == m[p][n].jobs + if n == node {
        1int
    } else {
        0int
    } by {
        if m[p].contains_key(node) {
            assert(a[p] == m[p].insert(node, bump(m[p][node], used)));
        }
    }
}

proof fn lemma_apply_nodes_exact(m: PartitionTable, toks: Seq<Seq<char>>, used: u32)
    requires
        forall|p: Seq<char>, n: Seq<char>|
            m.contains_key(p) && #[trigger] m[p].contains_key(n) ==> m[p][n].jobs + token_count(toks, n) <= u32::MAX,
    ensures
        same_nodes(m, apply_nodes(m, toks, used)),
        forall|p: Seq<char>, n: Seq<char>|
            m.contains_key(p) && #[trigger] m[p].contains_key(n) ==> apply_nodes(m, toks, used)[p][n].jobs
                == m[p][n].jobs + token_count(toks, n),
    decreases toks.len(),
{
    if toks.len() > 0 {
        let prev = apply_nodes(m, toks.drop_last(), used);
        let last = toks.last();
        lemma_apply_nodes_exact(m, toks.drop_last(), used);
        assert forall|p: Seq<char>| prev.contains_key(p) && #[trigger] prev[p].contains_key(last) implies prev[p][last].jobs
            < u32::MAX by {
            assert(m.contains_key(p));
            assert(m[p].contains_key(last));
        }
        lemma_apply_node_exact(prev, last, used);
        let a = apply_nodes(m, toks, used);
        assert(a == apply_node(prev, last, used));
        assert forall|p: Seq<char>, n: Seq<char>| m.contains_key(p) implies (#[trigger] m[p].contains_key(n) <==> a[p].contains_key(n)) by {
            assert(prev.contains_key(p));
            assert(m[p].contains_key(n) <==> prev[p].contains_key(n));
        }
        assert forall|p: Seq<char>, n: Seq<char>| m.contains_key(p) && #[trigger] m[p].contains_key(n) implies a[p][n].jobs
            == m[p][n].jobs + token_count(toks, n) by {
            assert(prev.contains_key(p));
            assert(prev[p].contains_key(n));
        }
    }
}

proof fn lemma_job_table_exact(m: PartitionTable, ls: Seq<Seq<char>>)
    requires
        job_table(m, ls) is Ok,
        forall|p: Seq<char>, n: Seq<char>|
            m.contains_key(p) && #[trigger] m[p].contains_key(n) ==> m[p][n].jobs + node_mentions(ls, n) <= u32::MAX,
    ensures
        same_nodes(m, job_table(m, ls)->Ok_0),
        forall|p: Seq<char>, n: Seq<char>|
            m.contains_key(p) && #[trigger] m[p].contains_key(n) ==> (job_table(m, ls)->Ok_0)[p][n].jobs
                == m[p][n].jobs + node_mentions(ls, n),
    decreases ls.len(),
{
    if ls.len() > 0 {
        let l = ls.last();
        let fs = split_char(l, '|');
        lemma_job_table_rows_ok(m, ls);
        lemma_job_table_exact(m, ls.drop_last());
        let prev = job_table(m, ls.drop_last())->Ok_0;
        let t = job_table(m, ls)->Ok_0;
        if !blank(l) {
            let toks = row_nodes(fs);
            assert forall|q: Seq<char>, n: Seq<char>| prev.contains_key(q) && #[trigger] prev[q].contains_key(n) implies prev[q][n].jobs
                + token_count(toks, n) <= u32::MAX by {
                assert(m.contains_key(q));
                assert(m[q].contains_key(n));
            }
            lemma_apply_nodes_exact(prev, toks, used_gpus(fs[2]));
            assert forall|q: Seq<char>, n: Seq<char>| m.contains_key(q) && #[trigger] m[q].contains_key(n) implies t[q][n].jobs
                == m[q][n].jobs + node_mentions(ls, n) by {
                assert(prev.contains_key(q));
                assert(prev[q].contains_key(n));
            }
            assert forall|q: Seq<char>, n: Seq<char>| m.contains_key(q) implies (#[trigger] m[q].contains_key(n) <==> t[q].contains_key(n)) by {
                assert(prev.contains_key(q));
                assert(m[q].contains_key(n) <==> prev[q].contains_key(n));
            }
        }
    }
}

/// In the overview, each node's job count is the number of times the job
/// rows list it.
pub proof fn law_partition_jobs_counted(
    nodes_stdout: Seq<char>,
    jobs_stdout: Seq<char>,
    fixed: Option<Seq<char>>,
    p: Seq<char>,
    n: Seq<char>,
)
    requires
        partition_table(nodes_stdout, jobs_stdout, fixed) is Ok,
        node_counts_fit(nodes_stdout, jobs_stdout, fixed),
        (partition_table(nodes_stdout, jobs_stdout, fixed)->Ok_0).contains_key(p),
        (partition_table(nodes_stdout, jobs_stdout, fixed)->Ok_0)[p].contains_key(n),
    ensures
        (partition_table(nodes_stdout, jobs_stdout, fixed)->Ok_0)[p][n].jobs == node_mentions(
            lines(jobs_stdout),
            n,
        ),
{
    let m = node_table(lines(nodes_stdout), fixed)->Ok_0;
    lemma_node_table_idle(lines(nodes_stdout), fixed);
    assert forall|q: Seq<char>, x: Seq<char>| m.contains_key(q) && #[trigger] m[q].contains_key(x) implies m[q][x].jobs
        + node_mentions(lines(jobs_stdout), x) <= u32::MAX by {
        assert(m[q][x].jobs == 0);
    }
    lemma_job_table_exact(m, lines(jobs_stdout));
    assert(m.contains_key(p));
    assert(m[p].contains_key(n));
    assert(m[p][n].jobs == 0);
}

// ---------------------------------------------------------------------------
// When the overview fails
// ---------------------------------------------------------------------------

/// A non-blank node row with fewer fields than its form needs: four with a
/// fixed partition, five without.
pub open spec fn node_row_short(l: Seq<char>, fixed: Option<Seq<char>>) -> bool {
    !blank(l) && split_char(l, '|').len() < if fixed is Some {
        4int
    } else {
        5int
    }
}

/// A non-blank job row with fewer than four fields.
pub open spec fn job_row_short(l: Seq<char>) -> bool {
    !blank(l) && split_char(l, '|').len() < 4
}

proof fn lemma_node_table_fails_at_first_short(ls: Seq<Seq<char>>, fixed: Option<Seq<char>>)
    ensures
        node_table(ls, fixed) is Ok <==> forall|i: int| 0 <= i < ls.len() ==> !node_row_short(#[trigger] ls[i], fixed),
        forall|i: int|
            0 <= i < ls.len() && node_row_short(#[trigger] ls[i], fixed) && (forall|k: int|
                0 <= k < i ==> !node_row_short(#[trigger] ls[k], fixed)) ==> node_table(ls, fixed) == Err::<
                PartitionTable,
                Seq<char>,
            >(ls[i]),
    decreases ls.len(),
{
    if ls.len() > 0 {
        let p = ls.drop_last();
        lemma_node_table_fails_at_first_short(p, fixed);
        assert forall|i: int| 0 <= i < p.len() implies p[i] == ls[i] by {}
        let l = ls.last();
        assert(ls[ls.len() - 1] == l);
        assert(node_row(l, fixed) is None <==> split_char(l, '|').len() < if fixed is Some {
            4int
        } else {
            5int
        });
        if node_table(ls, fixed) is Ok {
            assert forall|i: int| 0 <= i < ls.len() implies !node_row_short(#[trigger] ls[i], fixed) by {
                if i < p.len() {
                    assert(p[i] == ls[i]);
                }
            }
        }
        assert forall|i: int|
            0 <= i < ls.len() && node_row_short(#[trigger] ls[i], fixed) && (forall|k: int|
                0 <= k < i ==> !node_row_short(#[trigger] ls[k], fixed)) implies node_table(ls, fixed) == Err::<
            PartitionTable,
            Seq<char>,
        >(ls[i]) by {
            if i < p.len() {
                assert(p[i] == ls[i]);
                assert forall|k: int| 0 <= k < i implies !node_row_short(#[trigger] p[k], fixed) by {
                    assert(p[k] == ls[k]);
                }
            } else {
                assert forall|k: int| 0 <= k < p.len() implies !node_row_short(#[trigger] p[k], fixed) by {
                    assert(p[k] == ls[k]);
                }
            }
        }
    }
}

proof fn lemma_job_table_fails_at_first_short(m: PartitionTable, ls: Seq<Seq<char>>)
    ensures
        job_table(m, ls) is Ok <==> forall|i: int| 0 <= i < ls.len() ==> !job_row_short(#[trigger] ls[i]),
        forall|i: int|
            0 <= i < ls.len() && job_row_short(#[trigger] ls[i]) && (forall|k: int|
                0 <= k < i ==> !job_row_short(#[trigger] ls[k])) ==> job_table(m, ls) == Err::<
                PartitionTable,
                Seq<char>,
            >(ls[i]),
    decreases ls.len(),
{
    if ls.len() > 0 {
        let p = ls.drop_last();
        lemma_job_table_fails_at_first_short(m, p);
        let l = ls.last();
        assert(ls[ls.len() - 1] == l);
        if job_table(m, ls) is Ok {
            assert forall|i: int| 0 <= i < ls.len() implies !job_row_short(#[trigger] ls[i]) by {
                if i < p.len() {
                    assert(p[i] == ls[i]);
                }
            }
        }
        assert forall|i: int|
            0 <= i < ls.len() && job_row_short(#[trigger] ls[i]) && (forall|k: int|
                0 <= k < i ==> !job_row_short(#[trigger] ls[k])) implies job_table(m, ls) == Err::<
            PartitionTable,
            Seq<char>,
        >(ls[i]) by {
            if i < p.len() {
                assert(p[i] == ls[i]);
                assert forall|k: int| 0 <= k < i implies !job_row_short(#[trigger] p[k]) by {
                    assert(p[k] == ls[k]);
                }
            } else {
                assert forall|k: int| 0 <= k < p.len() implies !job_row_short(#[trigger] p[k]) by {
                    assert(p[k] == ls[k]);
                }
            }
        }
    }
}

/// When the overview fails: at the first node row with too few fields; else,
/// when the usage pattern is refused; else at the first job row with fewer
/// than four fields. With none of these it succeeds.
pub proof fn law_partition_errors(nodes_stdout: Seq<char>, jobs_stdout: Seq<char>, fixed: Option<Seq<char>>)
    ensures
        forall|i: int|
            0 <= i < lines(nodes_stdout).len() && node_row_short(#[trigger] lines(nodes_stdout)[i], fixed)
                && (forall|k: int| 0 <= k < i ==> !node_row_short(#[trigger] lines(nodes_stdout)[k], fixed))
                ==> partition_table(nodes_stdout, jobs_stdout, fixed) == Err::<PartitionTable, PartitionFailure>(
                PartitionFailure::NodeRow(lines(nodes_stdout)[i]),
            ),
        (forall|i: int| 0 <= i < lines(nodes_stdout).len() ==> !node_row_short(#[trigger] lines(nodes_stdout)[i], fixed))
            && !regex_compiles(usage_pattern()) ==> partition_table(nodes_stdout, jobs_stdout, fixed) == Err::<
            PartitionTable,
            PartitionFailure,
        >(PartitionFailure::RegexRefused),
        forall|j: int|
            (forall|i: int| 0 <= i < lines(nodes_stdout).len() ==> !node_row_short(#[trigger] lines(nodes_stdout)[i], fixed))
                && regex_compiles(usage_pattern()) && 0 <= j < lines(jobs_stdout).len() && job_row_short(
                #[trigger] lines(jobs_stdout)[j],
            ) && (forall|k: int| 0 <= k < j ==> !job_row_short(#[trigger] lines(jobs_stdout)[k]))
                ==> partition_table(nodes_stdout, jobs_stdout, fixed) == Err::<PartitionTable, PartitionFailure>(
                PartitionFailure::JobsRow(lines(jobs_stdout)[j]),
            ),
        (forall|i: int| 0 <= i < lines(nodes_stdout).len() ==> !node_row_short(#[trigger] lines(nodes_stdout)[i], fixed))
            && regex_compiles(usage_pattern()) && (forall|j: int|
            0 <= j < lines(jobs_stdout).len() ==> !job_row_short(#[trigger] lines(jobs_stdout)[j]))
            ==> partition_table(nodes_stdout, jobs_stdout, fixed) is Ok,
{
    lemma_node_table_fails_at_first_short(lines(nodes_stdout), fixed);
    if node_table(lines(nodes_stdout), fixed) is Ok {
        lemma_job_table_fails_at_first_short(node_table(lines(nodes_stdout), fixed)->Ok_0, lines(jobs_stdout));
    }
}

} // verus!
