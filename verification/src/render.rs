//! The text the client prints: each listing as the lines it consists of, with
//! table columns padded on the right (`{:<width}`) and long cells cut short.
use vstd::prelude::*;
use crate::client::{entry_views, truncate_for_table, truncate_spec, EntryView, NodeJobEntry, NodeJobsData};
use crate::partition::{info_views, PartNodeView, PartitionInfoData, PartitionInfoSection, PartitionNodeInfo};
use crate::gpu::{node_views, GpuNodeView};
use crate::jobs::{job_views, JobView};
use crate::proto::{
    ConnectionKind, ConnectionRecord, FileTransferData, SessionNodeRole, SessionRecord, SessionState,
    ServerStatusData, SessionSummaryData, SlurmFindGpuData, SlurmJob, SlurmSubmitData, SlurmGpuNode, SlurmStatusGpuData,
};
use crate::store::{session_views, summary_views, SessionView, SummaryView};
use crate::text::{chars_of, dec, dec_chars, opt_view, push_all, push_str, string_of, string_views};

verus! {

// ---------------------------------------------------------------------------
// Cells and lines
// ---------------------------------------------------------------------------

pub open spec fn spaces(n: nat) -> Seq<char> {
    Seq::new(n, |i: int| ' ')
}

/// `s` padded with spaces on the right to at least `w` characters.
pub open spec fn pad(s: Seq<char>, w: nat) -> Seq<char> {
    if s.len() >= w {
        s
    } else {
        s + spaces((w - s.len()) as nat)
    }
}

/// A table cell: `s` padded to `w` characters, then the column gap.
pub open spec fn cell(s: Seq<char>, w: nat) -> Seq<char> {
    pad(s, w) + seq![' ']
}

/// `a/b`.
pub open spec fn frac(a: u32, b: u32) -> Seq<char> {
    dec(a as nat) + seq!['/'] + dec(b as nat)
}

/// Appends a table cell.
fn put_cell(v: &mut Vec<char>, s: &[char], w: usize)
    ensures
        final(v)@ == old(v)@ + cell(s@, w as nat),
{
    let ghost start = v@;
    push_all(v, s);
    let mut k: usize = s.len();
    assert(v@ =~= start + s@ + spaces((k - s@.len()) as nat));
    while k < w
        invariant
            s@.len() <= k,
            k <= w || k == s@.len(),
            v@ == start + s@ + spaces((k - s@.len()) as nat),
        decreases w - k,
    {
        let ghost before = v@;
        v.push(' ');
        k += 1;
        assert(v@ =~= start + s@ + spaces((k - s@.len()) as nat)) by {
            assert(v@ =~= before.push(' '));
            assert(spaces((k - s@.len()) as nat) =~= spaces((k - 1 - s@.len()) as nat).push(' '));
        }
    }
    let ghost padded = v@;
    v.push(' ');
    assert(padded =~= start + pad(s@, w as nat)) by {
        if s@.len() >= w {
            assert(spaces(0) =~= Seq::<char>::empty());
        }
    }
    assert(v@ =~= start + cell(s@, w as nat));
}

/// Appends a table cell holding a literal.
fn put_text_cell(v: &mut Vec<char>, s: &str, w: usize)
    ensures
        final(v)@ == old(v)@ + cell(s@, w as nat),
{
    let cs = chars_of(s);
    put_cell(v, cs.as_slice(), w);
}

/// Appends a table cell holding `s` cut to `w` characters.
fn put_cut_cell(v: &mut Vec<char>, s: &str, w: usize)
    ensures
        final(v)@ == old(v)@ + cell(truncate_spec(s@, w as nat), w as nat),
{
    let t = truncate_for_table(s, w);
    let cs = chars_of(t.as_str());
    put_cell(v, cs.as_slice(), w);
}

fn frac_chars(a: u32, b: u32) -> (r: Vec<char>)
    ensures
        r@ == frac(a, b),
{
    let mut v = dec_chars(a as u64);
    v.push('/');
    let d = dec_chars(b as u64);
    push_all(&mut v, d.as_slice());
    v
}

fn push_line(out: &mut Vec<String>, l: &Vec<char>)
    ensures
        string_views(final(out)@) == string_views(old(out)@).push(l@),
{
    let ghost before = string_views(out@);
    out.push(string_of(l.as_slice()));
    assert(string_views(out@) =~= before.push(l@));
}

fn push_text_line(out: &mut Vec<String>, s: &str)
    ensures
        string_views(final(out)@) == string_views(old(out)@).push(s@),
{
    let ghost before = string_views(out@);
    out.push(s.to_owned());
    assert(string_views(out@) =~= before.push(s@));
}

/// `s` followed by the decimal form of `n`, then `tail`.
fn text_num(s: &str, n: u64, tail: &str) -> (r: Vec<char>)
    ensures
        r@ == s@ + dec(n as nat) + tail@,
{
    let mut v = chars_of(s);
    let d = dec_chars(n);
    push_all(&mut v, d.as_slice());
    push_str(&mut v, tail);
    v
}

/// Appends the lines of `more`.
fn append_lines(out: &mut Vec<String>, more: Vec<String>)
    ensures
        string_views(final(out)@) == string_views(old(out)@) + string_views(more@),
{
    let ghost start = string_views(out@);
    let ghost add = string_views(more@);
    let mut more = more;
    let mut rev: Vec<String> = Vec::new();
    while more.len() > 0
        invariant
            string_views(more@) + string_views(rev@).reverse() == add,
            string_views(out@) == start,
        decreases more@.len(),
    {
        let ghost m0 = string_views(more@);
        let ghost r0 = string_views(rev@);
        let x = more.pop().unwrap();
        rev.push(x);
        assert(string_views(more@) =~= m0.drop_last());
        assert(string_views(rev@) =~= r0.push(m0.last()));
        assert(string_views(rev@).reverse() =~= seq![m0.last()] + r0.reverse());
        assert(m0 =~= m0.drop_last().push(m0.last()));
        assert(string_views(more@) + string_views(rev@).reverse() =~= m0 + r0.reverse());
    }
    assert(string_views(rev@).reverse() =~= add);
    while rev.len() > 0
        invariant
            string_views(out@) + string_views(rev@).reverse() == start + add,
        decreases rev@.len(),
    {
        let ghost r0 = string_views(rev@);
        let ghost o0 = string_views(out@);
        let x = rev.pop().unwrap();
        let ghost xv = x@;
        out.push(x);
        assert(string_views(rev@) =~= r0.drop_last());
        assert(string_views(out@) =~= o0.push(xv));
        assert(r0.reverse() =~= seq![xv] + r0.drop_last().reverse());
        assert(string_views(out@) + string_views(rev@).reverse() =~= o0 + r0.reverse());
    }
    assert(string_views(rev@).reverse() =~= Seq::<Seq<char>>::empty());
}

// ---------------------------------------------------------------------------
// GPU node tables
// ---------------------------------------------------------------------------

pub open spec fn gpu_table_header() -> Seq<char> {
    cell("NODE"@, 20) + cell("PARTITION"@, 12) + cell("GPU IDLE/TOTAL"@, 15) + cell("CPU IDLE/TOTAL"@, 15)
        + "GPU TYPE"@
}

pub open spec fn gpu_table_row(n: GpuNodeView) -> Seq<char> {
    cell(truncate_spec(n.node, 20), 20) + cell(truncate_spec(n.partition, 12), 12) + cell(
        frac(n.gpu_idle, n.gpu_total),
        15,
    ) + cell(frac(n.cpu_idle, n.cpu_total), 15) + n.gpu_type
}

/// A table of GPU nodes: a header, then a row per node.
pub open spec fn gpu_table(nodes: Seq<GpuNodeView>) -> Seq<Seq<char>> {
    seq![gpu_table_header()] + nodes.map_values(|n: GpuNodeView| gpu_table_row(n))
}

/// The lines of a table of GPU nodes.
pub fn gpu_table_lines(nodes: &[SlurmGpuNode]) -> (r: Vec<String>)
    ensures
        string_views(r@) == gpu_table(node_views(nodes@)),
{
    let mut out: Vec<String> = Vec::new();
    let mut h: Vec<char> = Vec::new();
    put_text_cell(&mut h, "NODE", 20);
    put_text_cell(&mut h, "PARTITION", 12);
    put_text_cell(&mut h, "GPU IDLE/TOTAL", 15);
    put_text_cell(&mut h, "CPU IDLE/TOTAL", 15);
    push_str(&mut h, "GPU TYPE");
    assert(h@ =~= gpu_table_header());
    push_line(&mut out, &h);
    let ghost vs = node_views(nodes@);
    let mut i: usize = 0;
    while i < nodes.len()
        invariant
            vs == node_views(nodes@),
            i <= vs.len(),
            string_views(out@) == seq![gpu_table_header()] + vs.take(i as int).map_values(
                |n: GpuNodeView| gpu_table_row(n),
            ),
        decreases vs.len() - i,
    {
        let n = &nodes[i];
        let mut l: Vec<char> = Vec::new();
        put_cut_cell(&mut l, n.node.as_str(), 20);
        put_cut_cell(&mut l, n.partition.as_str(), 12);
        let g = frac_chars(n.gpu_idle, n.gpu_total);
        put_cell(&mut l, g.as_slice(), 15);
        let c = frac_chars(n.cpu_idle, n.cpu_total);
        put_cell(&mut l, c.as_slice(), 15);
        push_all(&mut l, chars_of(n.gpu_type.as_str()).as_slice());
        assert(l@ =~= gpu_table_row(vs[i as int]));
        push_line(&mut out, &l);
        assert(vs.take(i + 1).map_values(|n: GpuNodeView| gpu_table_row(n)) =~= vs.take(
            i as int,
        ).map_values(|n: GpuNodeView| gpu_table_row(n)).push(gpu_table_row(vs[i as int])));
        i += 1;
    }
    assert(vs.take(vs.len() as int) =~= vs);
    out
}

/// The summary lines of GPU figures.
pub open spec fn gpu_summary_text(available_nodes: u32, total_gpu: u32, idle_gpu: u32) -> Seq<Seq<char>> {
    seq![
        "Summary"@,
        "  available_nodes: "@ + dec(available_nodes as nat),
        "  total_gpu: "@ + dec(total_gpu as nat),
        "  idle_gpu: "@ + dec(idle_gpu as nat),
    ]
}

/// The summary lines of GPU figures.
pub fn gpu_summary_lines(available_nodes: u32, total_gpu: u32, idle_gpu: u32) -> (r: Vec<String>)
    ensures
        string_views(r@) == gpu_summary_text(available_nodes, total_gpu, idle_gpu),
{
    let mut out: Vec<String> = Vec::new();
    push_text_line(&mut out, "Summary");
    push_line(&mut out, &text_num("  available_nodes: ", available_nodes as u64, ""));
    push_line(&mut out, &text_num("  total_gpu: ", total_gpu as u64, ""));
    push_line(&mut out, &text_num("  idle_gpu: ", idle_gpu as u64, ""));
    proof {
        reveal_strlit("");
    }
    assert(string_views(out@) =~= gpu_summary_text(available_nodes, total_gpu, idle_gpu));
    out
}

/// The text of the GPU status of a partition: the available and the drained
/// nodes, each table under its heading when it has nodes, then the summary.
pub open spec fn status_gpu_text(
    available: Seq<GpuNodeView>,
    drain: Seq<GpuNodeView>,
    available_nodes: u32,
    total_gpu: u32,
    idle_gpu: u32,
) -> Seq<Seq<char>> {
    if available.len() == 0 && drain.len() == 0 {
        seq!["No GPU nodes found"@, Seq::empty()] + gpu_summary_text(0, 0, 0)
    } else {
        (if available.len() > 0 {
            seq!["[AVAILABLE] GPU nodes ("@ + dec(available.len()) + ")"@] + gpu_table(available)
        } else {
            Seq::empty()
        }) + (if drain.len() > 0 {
            (if available.len() > 0 {
                seq![Seq::<char>::empty()]
            } else {
                Seq::empty()
            }) + seq!["[DRAIN] GPU nodes ("@ + dec(drain.len()) + ")"@] + gpu_table(drain)
        } else {
            Seq::empty()
        }) + seq![Seq::<char>::empty()] + gpu_summary_text(available_nodes, total_gpu, idle_gpu)
    }
}

/// The text of the GPU status of a partition.
pub fn status_gpu_lines(data: &SlurmStatusGpuData) -> (r: Vec<String>)
    ensures
        string_views(r@) == status_gpu_text(
            node_views(data.available_nodes@),
            node_views(data.drain_nodes@),
            data.summary.available_nodes,
            data.summary.total_gpu,
            data.summary.idle_gpu,
        ),
{
    let mut out: Vec<String> = Vec::new();
    let ghost av = node_views(data.available_nodes@);
    let ghost dv = node_views(data.drain_nodes@);
    let a = data.available_nodes.len();
    let d = data.drain_nodes.len();
    assert(av.len() == a && dv.len() == d);
    proof {
        reveal_strlit("");
    }
    assert(""@ =~= Seq::<char>::empty());
    if a == 0 && d == 0 {
        push_text_line(&mut out, "No GPU nodes found");
        push_text_line(&mut out, "");
        append_lines(&mut out, gpu_summary_lines(0, 0, 0));
        assert(string_views(out@) =~= seq!["No GPU nodes found"@, Seq::empty()] + gpu_summary_text(0, 0, 0));
        return out;
    }
    let ghost part1: Seq<Seq<char>> = if av.len() > 0 {
        seq!["[AVAILABLE] GPU nodes ("@ + dec(av.len()) + ")"@] + gpu_table(av)
    } else {
        Seq::empty()
    };
    let ghost part2: Seq<Seq<char>> = if dv.len() > 0 {
        (if av.len() > 0 {
            seq![Seq::<char>::empty()]
        } else {
            Seq::empty()
        }) + seq!["[DRAIN] GPU nodes ("@ + dec(dv.len()) + ")"@] + gpu_table(dv)
    } else {
        Seq::empty()
    };
    if a > 0 {
        push_line(&mut out, &text_num("[AVAILABLE] GPU nodes (", a as u64, ")"));
        append_lines(&mut out, gpu_table_lines(data.available_nodes.as_slice()));
    }
    assert(string_views(out@) =~= part1);
    if d > 0 {
        if a > 0 {
            push_text_line(&mut out, "");
        }
        push_line(&mut out, &text_num("[DRAIN] GPU nodes (", d as u64, ")"));
        append_lines(&mut out, gpu_table_lines(data.drain_nodes.as_slice()));
    }
    assert(string_views(out@) =~= part1 + part2);
    push_text_line(&mut out, "");
    append_lines(
        &mut out,
        gpu_summary_lines(data.summary.available_nodes, data.summary.total_gpu, data.summary.idle_gpu),
    );
    assert(string_views(out@) =~= status_gpu_text(
        node_views(data.available_nodes@),
        node_views(data.drain_nodes@),
        data.summary.available_nodes,
        data.summary.total_gpu,
        data.summary.idle_gpu,
    ));
    out
}

/// The text of a GPU search: nodes with an idle GPU, nodes without, and
/// drained nodes, each table under its heading when it has nodes, then the
/// summary.
pub open spec fn find_gpu_text(
    available: Seq<GpuNodeView>,
    busy: Seq<GpuNodeView>,
    drain: Seq<GpuNodeView>,
    available_nodes: u32,
    total_gpu: u32,
    idle_gpu: u32,
) -> Seq<Seq<char>> {
    if available.len() == 0 && busy.len() == 0 && drain.len() == 0 {
        seq!["No matching GPU nodes found"@, Seq::empty()] + gpu_summary_text(0, 0, 0)
    } else {
        (if available.len() > 0 {
            seq!["[AVAILABLE] Nodes with idle GPU ("@ + dec(available.len()) + ")"@] + gpu_table(available)
        } else {
            Seq::empty()
        }) + (if busy.len() > 0 {
            (if available.len() > 0 {
                seq![Seq::<char>::empty()]
            } else {
                Seq::empty()
            }) + seq!["[BUSY] Nodes without idle GPU ("@ + dec(busy.len()) + ")"@] + gpu_table(busy)
        } else {
            Seq::empty()
        }) + (if drain.len() > 0 {
            (if available.len() > 0 || busy.len() > 0 {
                seq![Seq::<char>::empty()]
            } else {
                Seq::empty()
            }) + seq!["[DRAIN] Unavailable GPU nodes ("@ + dec(drain.len()) + ")"@] + gpu_table(drain)
        } else {
            Seq::empty()
        }) + seq![Seq::<char>::empty()] + gpu_summary_text(available_nodes, total_gpu, idle_gpu)
    }
}

/// The text of a GPU search.
pub fn find_gpu_lines(data: &SlurmFindGpuData) -> (r: Vec<String>)
    ensures
        string_views(r@) == find_gpu_text(
            node_views(data.available_nodes@),
            node_views(data.busy_nodes@),
            node_views(data.drain_nodes@),
            data.summary.available_nodes,
            data.summary.total_gpu,
            data.summary.idle_gpu,
        ),
{
    let mut out: Vec<String> = Vec::new();
    let ghost av = node_views(data.available_nodes@);
    let ghost bv = node_views(data.busy_nodes@);
    let ghost dv = node_views(data.drain_nodes@);
    let a = data.available_nodes.len();
    let b = data.busy_nodes.len();
    let d = data.drain_nodes.len();
    assert(av.len() == a && bv.len() == b && dv.len() == d);
    proof {
        reveal_strlit("");
    }
    assert(""@ =~= Seq::<char>::empty());
    if a == 0 && b == 0 && d == 0 {
        push_text_line(&mut out, "No matching GPU nodes found");
        push_text_line(&mut out, "");
        append_lines(&mut out, gpu_summary_lines(0, 0, 0));
        assert(string_views(out@) =~= seq!["No matching GPU nodes found"@, Seq::empty()]
            + gpu_summary_text(0, 0, 0));
        return out;
    }
    let ghost part1: Seq<Seq<char>> = if av.len() > 0 {
        seq!["[AVAILABLE] Nodes with idle GPU ("@ + dec(av.len()) + ")"@] + gpu_table(av)
    } else {
        Seq::empty()
    };
    let ghost part2: Seq<Seq<char>> = if bv.len() > 0 {
        (if av.len() > 0 {
            seq![Seq::<char>::empty()]
        } else {
            Seq::empty()
        }) + seq!["[BUSY] Nodes without idle GPU ("@ + dec(bv.len()) + ")"@] + gpu_table(bv)
    } else {
        Seq::empty()
    };
    let ghost part3: Seq<Seq<char>> = if dv.len() > 0 {
        (if av.len() > 0 || bv.len() > 0 {
            seq![Seq::<char>::empty()]
        } else {
            Seq::empty()
        }) + seq!["[DRAIN] Unavailable GPU nodes ("@ + dec(dv.len()) + ")"@] + gpu_table(dv)
    } else {
        Seq::empty()
    };
    if a > 0 {
        push_line(&mut out, &text_num("[AVAILABLE] Nodes with idle GPU (", a as u64, ")"));
        append_lines(&mut out, gpu_table_lines(data.available_nodes.as_slice()));
    }
    assert(string_views(out@) =~= part1);
    if b > 0 {
        if a > 0 {
            push_text_line(&mut out, "");
        }
        push_line(&mut out, &text_num("[BUSY] Nodes without idle GPU (", b as u64, ")"));
        append_lines(&mut out, gpu_table_lines(data.busy_nodes.as_slice()));
    }
    assert(string_views(out@) =~= part1 + part2);
    if d > 0 {
        if a > 0 || b > 0 {
            push_text_line(&mut out, "");
        }
        push_line(&mut out, &text_num("[DRAIN] Unavailable GPU nodes (", d as u64, ")"));
        append_lines(&mut out, gpu_table_lines(data.drain_nodes.as_slice()));
    }
    assert(string_views(out@) =~= part1 + part2 + part3);
    push_text_line(&mut out, "");
    append_lines(
        &mut out,
        gpu_summary_lines(data.summary.available_nodes, data.summary.total_gpu, data.summary.idle_gpu),
    );
    assert(string_views(out@) =~= find_gpu_text(
        av,
        bv,
        dv,
        data.summary.available_nodes,
        data.summary.total_gpu,
        data.summary.idle_gpu,
    ));
    out
}

// ---------------------------------------------------------------------------
// Transfers, connections and sessions
// ---------------------------------------------------------------------------

/// `true` or `false`.
pub open spec fn bool_text(b: bool) -> Seq<char> {
    if b {
        "true"@
    } else {
        "false"@
    }
}

fn bool_chars(b: bool) -> (r: Vec<char>)
    ensures
        r@ == bool_text(b),
{
    if b {
        chars_of("true")
    } else {
        chars_of("false")
    }
}

/// The text of a finished transfer.
pub open spec fn transfer_text(action: Seq<char>, source: Seq<char>, destination: Seq<char>, recursive: bool) -> Seq<
    Seq<char>,
> {
    seq![action + seq![' '] + source, "  to: "@ + destination, "  recursive: "@ + bool_text(recursive)]
}

/// The text of a finished transfer.
pub fn transfer_lines(action: &str, data: &FileTransferData) -> (r: Vec<String>)
    ensures
        string_views(r@) == transfer_text(action@, data.source_path@, data.destination_path@, data.recursive),
{
    let mut out: Vec<String> = Vec::new();
    let mut l = chars_of(action);
    l.push(' ');
    assert(l@ =~= action@ + seq![' ']);
    push_all(&mut l, chars_of(data.source_path.as_str()).as_slice());
    assert(l@ =~= action@ + seq![' '] + data.source_path@);
    push_line(&mut out, &l);
    let mut t = chars_of("  to: ");
    push_all(&mut t, chars_of(data.destination_path.as_str()).as_slice());
    push_line(&mut out, &t);
    let mut rl = chars_of("  recursive: ");
    push_all(&mut rl, bool_chars(data.recursive).as_slice());
    push_line(&mut out, &rl);
    assert(string_views(out@) =~= transfer_text(
        action@,
        data.source_path@,
        data.destination_path@,
        data.recursive,
    ));
    out
}

/// An optional text, `-` when absent.
pub open spec fn or_dash(o: Option<Seq<char>>) -> Seq<char> {
    match o {
        Some(s) => s,
        None => "-"@,
    }
}

/// An optional number, `-` when absent.
pub open spec fn num_or_dash(o: Option<u64>) -> Seq<char> {
    match o {
        Some(n) => dec(n as nat),
        None => "-"@,
    }
}

fn or_dash_chars(o: &Option<String>) -> (r: Vec<char>)
    ensures
        r@ == or_dash(opt_view(*o)),
{
    match o {
        Some(s) => chars_of(s.as_str()),
        None => chars_of("-"),
    }
}

fn num_or_dash_chars(o: Option<u64>) -> (r: Vec<char>)
    ensures
        r@ == num_or_dash(o),
{
    match o {
        Some(n) => dec_chars(n),
        None => chars_of("-"),
    }
}

/// `label` followed by `value`.
fn labeled(label: &str, value: &[char]) -> (r: Vec<char>)
    ensures
        r@ == label@ + value@,
{
    let mut v = chars_of(label);
    push_all(&mut v, value);
    v
}

/// The lower-case form of a connection kind's debug name.
pub open spec fn kind_text(k: ConnectionKind) -> Seq<char> {
    match k {
        ConnectionKind::Local => "local"@,
        ConnectionKind::Cluster => "cluster"@,
        ConnectionKind::Instance => "instance"@,
        ConnectionKind::Server => "server"@,
        ConnectionKind::ResourceNode => "resourcenode"@,
    }
}

fn kind_chars(k: &ConnectionKind) -> (r: Vec<char>)
    ensures
        r@ == kind_text(*k),
{
    match k {
        ConnectionKind::Local => chars_of("local"),
        ConnectionKind::Cluster => chars_of("cluster"),
        ConnectionKind::Instance => chars_of("instance"),
        ConnectionKind::Server => chars_of("server"),
        ConnectionKind::ResourceNode => chars_of("resourcenode"),
    }
}

/// Where a connection leads: `user@host:port` when all three are known,
/// else `local`.
pub open spec fn endpoint_text(c: ConnectionRecord) -> Seq<char> {
    match (c.host, c.port, c.username) {
        (Some(h), Some(p), Some(u)) => u@ + seq!['@'] + h@ + seq![':'] + dec(p as nat),
        _ => "local"@,
    }
}

/// The text describing a connection.
pub open spec fn connection_text(c: ConnectionRecord) -> Seq<Seq<char>> {
    seq![
        "Connection"@,
        "  id: "@ + c.id@,
        "  label: "@ + c.label@,
        "  kind: "@ + kind_text(c.kind),
        "  endpoint: "@ + endpoint_text(c),
        "  jump_host: "@ + or_dash(opt_view(c.jump_host)),
        "  default_keepalive_secs: "@ + num_or_dash(c.default_keepalive_secs),
    ]
}

/// The text describing a connection.
pub fn connection_detail_lines(c: &ConnectionRecord) -> (r: Vec<String>)
    ensures
        string_views(r@) == connection_text(*c),
{
    let mut out: Vec<String> = Vec::new();
    push_text_line(&mut out, "Connection");
    push_line(&mut out, &labeled("  id: ", chars_of(c.id.as_str()).as_slice()));
    push_line(&mut out, &labeled("  label: ", chars_of(c.label.as_str()).as_slice()));
    push_line(&mut out, &labeled("  kind: ", kind_chars(&c.kind).as_slice()));
    let endpoint: Vec<char> = match (&c.host, c.port, &c.username) {
        (Some(h), Some(p), Some(u)) => {
            let mut v = chars_of(u.as_str());
            v.push('@');
            push_all(&mut v, chars_of(h.as_str()).as_slice());
            v.push(':');
            push_all(&mut v, dec_chars(p as u64).as_slice());
            v
        },
        _ => chars_of("local"),
    };
    assert(endpoint@ =~= endpoint_text(*c));
    push_line(&mut out, &labeled("  endpoint: ", endpoint.as_slice()));
    push_line(&mut out, &labeled("  jump_host: ", or_dash_chars(&c.jump_host).as_slice()));
    push_line(
        &mut out,
        &labeled("  default_keepalive_secs: ", num_or_dash_chars(c.default_keepalive_secs).as_slice()),
    );
    assert(string_views(out@) =~= connection_text(*c));
    out
}

/// The debug name of a session state.
pub open spec fn state_name(s: SessionState) -> Seq<char> {
    match s {
        SessionState::Active => "Active"@,
        SessionState::Idle => "Idle"@,
        SessionState::Closed => "Closed"@,
    }
}

/// The lower-case debug name of a session state.
pub open spec fn state_text(s: SessionState) -> Seq<char> {
    match s {
        SessionState::Active => "active"@,
        SessionState::Idle => "idle"@,
        SessionState::Closed => "closed"@,
    }
}

/// The debug name of a node role.
pub open spec fn role_name(r: SessionNodeRole) -> Seq<char> {
    match r {
        SessionNodeRole::Login => "Login"@,
        SessionNodeRole::Compute => "Compute"@,
        SessionNodeRole::Unknown => "Unknown"@,
    }
}

fn state_name_chars(s: &SessionState) -> (r: Vec<char>)
    ensures
        r@ == state_name(*s),
{
    match s {
        SessionState::Active => chars_of("Active"),
        SessionState::Idle => chars_of("Idle"),
        SessionState::Closed => chars_of("Closed"),
    }
}

fn state_text_chars(s: &SessionState) -> (r: Vec<char>)
    ensures
        r@ == state_text(*s),
{
    match s {
        SessionState::Active => chars_of("active"),
        SessionState::Idle => chars_of("idle"),
        SessionState::Closed => chars_of("closed"),
    }
}

fn role_name_chars(r: &SessionNodeRole) -> (out: Vec<char>)
    ensures
        out@ == role_name(*r),
{
    match r {
        SessionNodeRole::Login => chars_of("Login"),
        SessionNodeRole::Compute => chars_of("Compute"),
        SessionNodeRole::Unknown => chars_of("Unknown"),
    }
}

/// The text describing a session.
pub open spec fn session_text(s: SessionView) -> Seq<Seq<char>> {
    seq![
        "Session"@,
        "  id: "@ + s.id,
        "  connection: "@ + s.connection_id,
        "  type: "@ + s.session_type,
        "  state: "@ + state_name(s.state),
        "  node_role: "@ + role_name(s.node_role),
        "  description: "@ + or_dash(s.description),
        "  remote_host: "@ + or_dash(s.remote_host),
        "  compute_node: "@ + or_dash(s.compute_node),
        "  keepalive_secs: "@ + num_or_dash(s.keepalive_secs),
        "  created_at: "@ + s.created_at,
        "  last_seen_at: "@ + s.last_seen_at,
    ]
}

/// The text describing a session.
pub fn session_detail_lines(s: &SessionRecord) -> (r: Vec<String>)
    ensures
        string_views(r@) == session_text(s@),
{
    let mut out: Vec<String> = Vec::new();
    push_text_line(&mut out, "Session");
    push_line(&mut out, &labeled("  id: ", chars_of(s.id.as_str()).as_slice()));
    push_line(&mut out, &labeled("  connection: ", chars_of(s.connection_id.as_str()).as_slice()));
    push_line(&mut out, &labeled("  type: ", chars_of(s.session_type.as_str()).as_slice()));
    push_line(&mut out, &labeled("  state: ", state_name_chars(&s.state).as_slice()));
    push_line(&mut out, &labeled("  node_role: ", role_name_chars(&s.node_role).as_slice()));
    push_line(&mut out, &labeled("  description: ", or_dash_chars(&s.description).as_slice()));
    push_line(&mut out, &labeled("  remote_host: ", or_dash_chars(&s.remote_host).as_slice()));
    push_line(&mut out, &labeled("  compute_node: ", or_dash_chars(&s.compute_node).as_slice()));
    push_line(&mut out, &labeled("  keepalive_secs: ", num_or_dash_chars(s.keepalive_secs).as_slice()));
    push_line(&mut out, &labeled("  created_at: ", chars_of(s.created_at.as_str()).as_slice()));
    push_line(&mut out, &labeled("  last_seen_at: ", chars_of(s.last_seen_at.as_str()).as_slice()));
    assert(string_views(out@) =~= session_text(s@));
    out
}

/// Appends a table cell holding `s` cut to `w` characters.
fn put_cut_chars(v: &mut Vec<char>, s: &[char], w: usize)
    ensures
        final(v)@ == old(v)@ + cell(truncate_spec(s@, w as nat), w as nat),
{
    let t = string_of(s);
    put_cut_cell(v, t.as_str(), w);
}

pub open spec fn sessions_header() -> Seq<char> {
    cell("SESSION_ID"@, 18) + cell("CONNECTION"@, 20) + cell("TYPE"@, 8) + cell("STATE"@, 8) + cell(
        "COMPUTE_NODE"@,
        16,
    ) + cell("KEEPALIVE"@, 10) + "Description"@
}

pub open spec fn sessions_row(s: SessionView) -> Seq<char> {
    cell(truncate_spec(s.id, 18), 18) + cell(truncate_spec(s.connection_id, 20), 20) + cell(
        truncate_spec(s.session_type, 8),
        8,
    ) + cell(truncate_spec(state_text(s.state), 8), 8) + cell(
        truncate_spec(or_dash(s.compute_node), 16),
        16,
    ) + cell(num_or_dash(s.keepalive_secs), 10) + or_dash(s.description)
}

/// The table of sessions, or a note that there are none.
pub open spec fn sessions_text(sessions: Seq<SessionView>) -> Seq<Seq<char>> {
    if sessions.len() == 0 {
        seq!["No sessions found"@]
    } else {
        seq![sessions_header()] + sessions.map_values(|s: SessionView| sessions_row(s))
    }
}

/// The table of sessions, or a note that there are none.
pub fn sessions_lines(sessions: &[SessionRecord]) -> (r: Vec<String>)
    ensures
        string_views(r@) == sessions_text(session_views(sessions@)),
{
    let mut out: Vec<String> = Vec::new();
    let ghost vs = session_views(sessions@);
    if sessions.len() == 0 {
        push_text_line(&mut out, "No sessions found");
        assert(string_views(out@) =~= sessions_text(vs));
        return out;
    }
    let mut h: Vec<char> = Vec::new();
    put_text_cell(&mut h, "SESSION_ID", 18);
    put_text_cell(&mut h, "CONNECTION", 20);
    put_text_cell(&mut h, "TYPE", 8);
    put_text_cell(&mut h, "STATE", 8);
    put_text_cell(&mut h, "COMPUTE_NODE", 16);
    put_text_cell(&mut h, "KEEPALIVE", 10);
    push_str(&mut h, "Description");
    assert(h@ =~= sessions_header());
    push_line(&mut out, &h);
    let mut i: usize = 0;
    while i < sessions.len()
        invariant
            vs == session_views(sessions@),
            i <= vs.len(),
            string_views(out@) == seq![sessions_header()] + vs.take(i as int).map_values(
                |s: SessionView| sessions_row(s),
            ),
        decreases vs.len() - i,
    {
        let x = &sessions[i];
        let mut l: Vec<char> = Vec::new();
        put_cut_cell(&mut l, x.id.as_str(), 18);
        put_cut_cell(&mut l, x.connection_id.as_str(), 20);
        put_cut_cell(&mut l, x.session_type.as_str(), 8);
        put_cut_chars(&mut l, state_text_chars(&x.state).as_slice(), 8);
        put_cut_chars(&mut l, or_dash_chars(&x.compute_node).as_slice(), 16);
        put_cell(&mut l, num_or_dash_chars(x.keepalive_secs).as_slice(), 10);
        push_all(&mut l, or_dash_chars(&x.description).as_slice());
        assert(l@ =~= sessions_row(vs[i as int]));
        push_line(&mut out, &l);
        assert(vs.take(i + 1).map_values(|s: SessionView| sessions_row(s)) =~= vs.take(
            i as int,
        ).map_values(|s: SessionView| sessions_row(s)).push(sessions_row(vs[i as int])));
        i += 1;
    }
    assert(vs.take(vs.len() as int) =~= vs);
    out
}

pub open spec fn summary_header() -> Seq<char> {
    cell("CONNECTION"@, 20) + cell("ACTIVE"@, 7) + cell("CURRENT_SESSION"@, 18) + cell(
        "COMPUTE_NODE"@,
        16,
    ) + cell("KEEPALIVE"@, 10) + "Description"@
}

pub open spec fn summary_row(s: SummaryView) -> Seq<char> {
    cell(truncate_spec(s.connection_id, 20), 20) + cell(dec(s.active_count as nat), 7) + cell(
        truncate_spec(or_dash(s.current_session_id), 18),
        18,
    ) + cell(truncate_spec(or_dash(s.current_compute_node), 16), 16) + cell(
        num_or_dash(s.current_keepalive_secs),
        10,
    ) + or_dash(s.current_description)
}

/// The count of active sessions, then a table of the connections that have them.
pub open spec fn summary_text(total_active: u32, items: Seq<SummaryView>) -> Seq<Seq<char>> {
    seq!["Active sessions: "@ + dec(total_active as nat)] + if items.len() == 0 {
        Seq::empty()
    } else {
        seq![summary_header()] + items.map_values(|s: SummaryView| summary_row(s))
    }
}

/// The count of active sessions, then a table of the connections that have them.
pub fn session_summary_lines(summary: &SessionSummaryData) -> (r: Vec<String>)
    ensures
        string_views(r@) == summary_text(summary.total_active, summary_views(summary.connections@)),
{
    let mut out: Vec<String> = Vec::new();
    let ghost vs = summary_views(summary.connections@);
    proof {
        reveal_strlit("");
    }
    push_line(&mut out, &text_num("Active sessions: ", summary.total_active as u64, ""));
    let ghost first = seq!["Active sessions: "@ + dec(summary.total_active as nat)];
    assert(string_views(out@) =~= first);
    if summary.connections.len() == 0 {
        assert(string_views(out@) =~= summary_text(summary.total_active, vs));
        return out;
    }
    let mut h: Vec<char> = Vec::new();
    put_text_cell(&mut h, "CONNECTION", 20);
    put_text_cell(&mut h, "ACTIVE", 7);
    put_text_cell(&mut h, "CURRENT_SESSION", 18);
    put_text_cell(&mut h, "COMPUTE_NODE", 16);
    put_text_cell(&mut h, "KEEPALIVE", 10);
    push_str(&mut h, "Description");
    assert(h@ =~= summary_header());
    push_line(&mut out, &h);
    let mut i: usize = 0;
    while i < summary.connections.len()
        invariant
            vs == summary_views(summary.connections@),
            i <= vs.len(),
            string_views(out@) == first + seq![summary_header()] + vs.take(i as int).map_values(
                |s: SummaryView| summary_row(s),
            ),
        decreases vs.len() - i,
    {
        let x = &summary.connections[i];
        let mut l: Vec<char> = Vec::new();
        put_cut_cell(&mut l, x.connection_id.as_str(), 20);
        put_cell(&mut l, dec_chars(x.active_count as u64).as_slice(), 7);
        put_cut_chars(&mut l, or_dash_chars(&x.current_session_id).as_slice(), 18);
        put_cut_chars(&mut l, or_dash_chars(&x.current_compute_node).as_slice(), 16);
        put_cell(&mut l, num_or_dash_chars(x.current_keepalive_secs).as_slice(), 10);
        push_all(&mut l, or_dash_chars(&x.current_description).as_slice());
        assert(l@ =~= summary_row(vs[i as int]));
        push_line(&mut out, &l);
        assert(vs.take(i + 1).map_values(|s: SummaryView| summary_row(s)) =~= vs.take(
            i as int,
        ).map_values(|s: SummaryView| summary_row(s)).push(summary_row(vs[i as int])));
        i += 1;
    }
    assert(vs.take(vs.len() as int) =~= vs);
    out
}

// ---------------------------------------------------------------------------
// The jobs of a node
// ---------------------------------------------------------------------------

pub open spec fn jobs_header(time_title: Seq<char>) -> Seq<char> {
    cell("JOBID"@, 10) + cell("Name"@, 25) + cell("User"@, 12) + cell(time_title, 12) + "Memory"@
}

pub open spec fn job_row(e: EntryView) -> Seq<char> {
    cell(e.job_id, 10) + cell(truncate_spec(e.name, 25), 25) + cell(truncate_spec(e.user, 12), 12)
        + cell(truncate_spec(e.time, 12), 12) + e.mem
}

/// A table of jobs, or `None` when there are none.
pub open spec fn jobs_block(entries: Seq<EntryView>, time_title: Seq<char>) -> Seq<Seq<char>> {
    if entries.len() == 0 {
        seq!["  None"@]
    } else {
        seq![jobs_header(time_title)] + entries.map_values(|e: EntryView| job_row(e))
    }
}

fn jobs_block_lines(entries: &Vec<NodeJobEntry>, time_title: &str) -> (r: Vec<String>)
    ensures
        string_views(r@) == jobs_block(entry_views(entries@), time_title@),
{
    let mut out: Vec<String> = Vec::new();
    let ghost vs = entry_views(entries@);
    if entries.len() == 0 {
        push_text_line(&mut out, "  None");
        assert(string_views(out@) =~= jobs_block(vs, time_title@));
        return out;
    }
    let mut h: Vec<char> = Vec::new();
    put_text_cell(&mut h, "JOBID", 10);
    put_text_cell(&mut h, "Name", 25);
    put_text_cell(&mut h, "User", 12);
    put_text_cell(&mut h, time_title, 12);
    push_str(&mut h, "Memory");
    assert(h@ =~= jobs_header(time_title@));
    push_line(&mut out, &h);
    let mut i: usize = 0;
    while i < entries.len()
        invariant
            vs == entry_views(entries@),
            i <= vs.len(),
            string_views(out@) == seq![jobs_header(time_title@)] + vs.take(i as int).map_values(
                |e: EntryView| job_row(e),
            ),
        decreases vs.len() - i,
    {
        let e = &entries[i];
        let mut l: Vec<char> = Vec::new();
        put_text_cell(&mut l, e.job_id.as_str(), 10);
        put_cut_cell(&mut l, e.name.as_str(), 25);
        put_cut_cell(&mut l, e.user.as_str(), 12);
        put_cut_cell(&mut l, e.time.as_str(), 12);
        push_all(&mut l, chars_of(e.mem.as_str()).as_slice());
        assert(l@ =~= job_row(vs[i as int]));
        push_line(&mut out, &l);
        assert(vs.take(i + 1).map_values(|e: EntryView| job_row(e)) =~= vs.take(i as int).map_values(
            |e: EntryView| job_row(e),
        ).push(job_row(vs[i as int])));
        i += 1;
    }
    assert(vs.take(vs.len() as int) =~= vs);
    out
}

/// The text of a node's jobs: its running jobs, then the pending jobs of its
/// partitions.
pub open spec fn node_jobs_text(node: Seq<char>, running: Seq<EntryView>, pending: Seq<EntryView>) -> Seq<
    Seq<char>,
> {
    seq!["Node: "@ + node, Seq::empty(), "[RUNNING] Running jobs ("@ + dec(running.len()) + ")"@]
        + jobs_block(running, "Runtime"@) + seq![
        Seq::empty(),
        "[PENDING] Pending jobs ("@ + dec(pending.len()) + ")"@,
    ] + jobs_block(pending, "WaitTime"@)
}

/// The text of a node's jobs.
pub fn node_jobs_lines(data: &NodeJobsData) -> (r: Vec<String>)
    ensures
        string_views(r@) == node_jobs_text(
            data.node@,
            entry_views(data.running_jobs@),
            entry_views(data.pending_jobs@),
        ),
{
    let mut out: Vec<String> = Vec::new();
    proof {
        reveal_strlit("");
    }
    assert(""@ =~= Seq::<char>::empty());
    let ghost rv = entry_views(data.running_jobs@);
    let ghost pv = entry_views(data.pending_jobs@);
    push_line(&mut out, &labeled("Node: ", chars_of(data.node.as_str()).as_slice()));
    push_text_line(&mut out, "");
    push_line(&mut out, &text_num("[RUNNING] Running jobs (", data.running_jobs.len() as u64, ")"));
    append_lines(&mut out, jobs_block_lines(&data.running_jobs, "Runtime"));
    push_text_line(&mut out, "");
    push_line(&mut out, &text_num("[PENDING] Pending jobs (", data.pending_jobs.len() as u64, ")"));
    append_lines(&mut out, jobs_block_lines(&data.pending_jobs, "WaitTime"));
    assert(string_views(out@) =~= node_jobs_text(data.node@, rv, pv));
    out
}

// ---------------------------------------------------------------------------
// The partition overview
// ---------------------------------------------------------------------------

/// The rule above and below a partition's name.
pub open spec fn rule() -> Seq<char> {
    Seq::new(60, |i: int| '=')
}

pub open spec fn gpu_nodes_header() -> Seq<char> {
    cell("Node"@, 18) + cell("GPU Idle/Total"@, 14) + cell("CPU Idle/Total"@, 14) + cell("Jobs"@, 8)
        + "Memory"@
}

pub open spec fn gpu_node_row(n: PartNodeView) -> Seq<char> {
    cell(truncate_spec(n.node, 18), 18) + cell(frac(n.gpu_idle, n.gpu_total), 14) + cell(
        frac(n.cpu_idle, n.cpu_total),
        14,
    ) + cell(dec(n.jobs as nat), 8) + n.mem
}

pub open spec fn cpu_nodes_header() -> Seq<char> {
    cell("Node"@, 18) + cell("CPU Idle/Total"@, 14) + cell("Jobs"@, 8) + "Memory"@
}

pub open spec fn cpu_node_row(n: PartNodeView) -> Seq<char> {
    cell(truncate_spec(n.node, 18), 18) + cell(frac(n.cpu_idle, n.cpu_total), 14) + cell(
        dec(n.jobs as nat),
        8,
    ) + n.mem
}

/// The text of one partition: its name between rules, its GPU nodes and its
/// CPU nodes (each table only when it has nodes), and a blank line.
pub open spec fn section_text(name: Seq<char>, gpu: Seq<PartNodeView>, cpu: Seq<PartNodeView>) -> Seq<
    Seq<char>,
> {
    seq![rule(), "Partition: "@ + name, rule()] + (if gpu.len() > 0 {
        seq![Seq::empty(), "[GPU Nodes] ("@ + dec(gpu.len()) + ")"@, gpu_nodes_header()]
            + gpu.map_values(|n: PartNodeView| gpu_node_row(n))
    } else {
        Seq::empty()
    }) + (if cpu.len() > 0 {
        seq![Seq::empty(), "[CPU Nodes] ("@ + dec(cpu.len()) + ")"@, cpu_nodes_header()]
            + cpu.map_values(|n: PartNodeView| cpu_node_row(n))
    } else {
        Seq::empty()
    }) + seq![Seq::<char>::empty()]
}

/// The text of the partition overview, one partition after another.
pub open spec fn partition_text(sections: Seq<PartitionInfoSection>) -> Seq<Seq<char>>
    decreases sections.len(),
{
    if sections.len() == 0 {
        Seq::empty()
    } else {
        let s = sections.last();
        partition_text(sections.drop_last()) + section_text(
            s.partition@,
            info_views(s.gpu_nodes@),
            info_views(s.cpu_nodes@),
        )
    }
}

fn node_rows_lines(nodes: &Vec<PartitionNodeInfo>, gpu: bool) -> (r: Vec<String>)
    ensures
        string_views(r@) == if gpu {
            info_views(nodes@).map_values(|n: PartNodeView| gpu_node_row(n))
        } else {
            info_views(nodes@).map_values(|n: PartNodeView| cpu_node_row(n))
        },
{
    let mut out: Vec<String> = Vec::new();
    let ghost vs = info_views(nodes@);
    let ghost row = |n: PartNodeView| if gpu {
        gpu_node_row(n)
    } else {
        cpu_node_row(n)
    };
    assert(string_views(out@) =~= vs.take(0).map_values(row));
    let mut i: usize = 0;
    while i < nodes.len()
        invariant
            vs == info_views(nodes@),
            i <= vs.len(),
            row == (|n: PartNodeView| if gpu {
                gpu_node_row(n)
            } else {
                cpu_node_row(n)
            }),
            string_views(out@) == vs.take(i as int).map_values(row),
        decreases vs.len() - i,
    {
        let n = &nodes[i];
        let mut l: Vec<char> = Vec::new();
        put_cut_cell(&mut l, n.node.as_str(), 18);
        if gpu {
            put_cell(&mut l, frac_chars(n.gpu_idle, n.gpu_total).as_slice(), 14);
        }
        put_cell(&mut l, frac_chars(n.cpu_idle, n.cpu_total).as_slice(), 14);
        put_cell(&mut l, dec_chars(n.jobs as u64).as_slice(), 8);
        push_all(&mut l, chars_of(n.mem.as_str()).as_slice());
        assert(l@ =~= row(vs[i as int]));
        push_line(&mut out, &l);
        assert(vs.take(i + 1).map_values(row) =~= vs.take(i as int).map_values(row).push(
            row(vs[i as int]),
        ));
        i += 1;
    }
    assert(vs.take(vs.len() as int) =~= vs);
    if gpu {
        assert(vs.map_values(row) =~= vs.map_values(|n: PartNodeView| gpu_node_row(n)));
    } else {
        assert(vs.map_values(row) =~= vs.map_values(|n: PartNodeView| cpu_node_row(n)));
    }
    out
}

fn section_lines(s: &PartitionInfoSection) -> (r: Vec<String>)
    ensures
        string_views(r@) == section_text(s.partition@, info_views(s.gpu_nodes@), info_views(s.cpu_nodes@)),
{
    let mut out: Vec<String> = Vec::new();
    let ghost gv = info_views(s.gpu_nodes@);
    let ghost cv = info_views(s.cpu_nodes@);
    proof {
        reveal_strlit("");
        reveal_strlit("============================================================");
    }
    assert(""@ =~= Seq::<char>::empty());
    assert("============================================================"@ =~= rule());
    push_text_line(&mut out, "============================================================");
    push_line(&mut out, &labeled("Partition: ", chars_of(s.partition.as_str()).as_slice()));
    push_text_line(&mut out, "============================================================");
    let ghost head = string_views(out@);
    if s.gpu_nodes.len() > 0 {
        push_text_line(&mut out, "");
        push_line(&mut out, &text_num("[GPU Nodes] (", s.gpu_nodes.len() as u64, ")"));
        let mut h: Vec<char> = Vec::new();
        put_text_cell(&mut h, "Node", 18);
        put_text_cell(&mut h, "GPU Idle/Total", 14);
        put_text_cell(&mut h, "CPU Idle/Total", 14);
        put_text_cell(&mut h, "Jobs", 8);
        push_str(&mut h, "Memory");
        assert(h@ =~= gpu_nodes_header());
        push_line(&mut out, &h);
        append_lines(&mut out, node_rows_lines(&s.gpu_nodes, true));
    }
    let ghost g_part: Seq<Seq<char>> = if gv.len() > 0 {
        seq![Seq::empty(), "[GPU Nodes] ("@ + dec(gv.len()) + ")"@, gpu_nodes_header()] + gv.map_values(
            |n: PartNodeView| gpu_node_row(n),
        )
    } else {
        Seq::empty()
    };
    assert(string_views(out@) =~= head + g_part);
    if s.cpu_nodes.len() > 0 {
        push_text_line(&mut out, "");
        push_line(&mut out, &text_num("[CPU Nodes] (", s.cpu_nodes.len() as u64, ")"));
        let mut h: Vec<char> = Vec::new();
        put_text_cell(&mut h, "Node", 18);
        put_text_cell(&mut h, "CPU Idle/Total", 14);
        put_text_cell(&mut h, "Jobs", 8);
        push_str(&mut h, "Memory");
        assert(h@ =~= cpu_nodes_header());
        push_line(&mut out, &h);
        append_lines(&mut out, node_rows_lines(&s.cpu_nodes, false));
    }
    let ghost c_part: Seq<Seq<char>> = if cv.len() > 0 {
        seq![Seq::empty(), "[CPU Nodes] ("@ + dec(cv.len()) + ")"@, cpu_nodes_header()] + cv.map_values(
            |n: PartNodeView| cpu_node_row(n),
        )
    } else {
        Seq::empty()
    };
    assert(string_views(out@) =~= head + g_part + c_part);
    push_text_line(&mut out, "");
    assert(string_views(out@) =~= section_text(s.partition@, gv, cv));
    out
}

/// The text of the partition overview.
pub fn partition_info_lines(data: &PartitionInfoData) -> (r: Vec<String>)
    ensures
        string_views(r@) == partition_text(data.partitions@),
{
    let mut out: Vec<String> = Vec::new();
    let ghost ps = data.partitions@;
    assert(string_views(out@) =~= partition_text(ps.take(0)));
    let mut i: usize = 0;
    while i < data.partitions.len()
        invariant
            ps == data.partitions@,
            i <= ps.len(),
            string_views(out@) == partition_text(ps.take(i as int)),
        decreases ps.len() - i,
    {
        append_lines(&mut out, section_lines(&data.partitions[i]));
        assert(ps.take(i + 1).drop_last() =~= ps.take(i as int));
        i += 1;
    }
    assert(ps.take(ps.len() as int) =~= ps);
    out
}

// ---------------------------------------------------------------------------
// Job and connection listings
// ---------------------------------------------------------------------------

pub open spec fn jobs_table_header() -> Seq<char> {
    cell("JOBID"@, 12) + cell("PARTITION"@, 12) + cell("NAME"@, 20) + cell("USER"@, 12) + cell(
        "STATE"@,
        12,
    ) + cell("TIME"@, 12) + cell("NODES"@, 6) + "REASON"@
}

pub open spec fn jobs_table_row(j: JobView) -> Seq<char> {
    cell(j.job_id, 12) + cell(truncate_spec(j.partition, 12), 12) + cell(truncate_spec(j.name, 20), 20)
        + cell(truncate_spec(j.user, 12), 12) + cell(truncate_spec(j.state, 12), 12) + cell(
        truncate_spec(j.time, 12),
        12,
    ) + cell(dec(j.nodes as nat), 6) + j.reason
}

/// The table of jobs, or a note that there are none.
pub open spec fn jobs_table_text(jobs: Seq<JobView>) -> Seq<Seq<char>> {
    if jobs.len() == 0 {
        seq!["No jobs found"@]
    } else {
        seq![jobs_table_header()] + jobs.map_values(|j: JobView| jobs_table_row(j))
    }
}

/// The table of jobs, or a note that there are none.
pub fn jobs_table_lines(jobs: &[SlurmJob]) -> (r: Vec<String>)
    ensures
        string_views(r@) == jobs_table_text(job_views(jobs@)),
{
    let mut out: Vec<String> = Vec::new();
    let ghost vs = job_views(jobs@);
    if jobs.len() == 0 {
        push_text_line(&mut out, "No jobs found");
        assert(string_views(out@) =~= jobs_table_text(vs));
        return out;
    }
    let mut h: Vec<char> = Vec::new();
    put_text_cell(&mut h, "JOBID", 12);
    put_text_cell(&mut h, "PARTITION", 12);
    put_text_cell(&mut h, "NAME", 20);
    put_text_cell(&mut h, "USER", 12);
    put_text_cell(&mut h, "STATE", 12);
    put_text_cell(&mut h, "TIME", 12);
    put_text_cell(&mut h, "NODES", 6);
    push_str(&mut h, "REASON");
    assert(h@ =~= jobs_table_header());
    push_line(&mut out, &h);
    let mut i: usize = 0;
    while i < jobs.len()
        invariant
            vs == job_views(jobs@),
            i <= vs.len(),
            string_views(out@) == seq![jobs_table_header()] + vs.take(i as int).map_values(
                |j: JobView| jobs_table_row(j),
            ),
        decreases vs.len() - i,
    {
        let j = &jobs[i];
        let mut l: Vec<char> = Vec::new();
        put_text_cell(&mut l, j.job_id.as_str(), 12);
        put_cut_cell(&mut l, j.partition.as_str(), 12);
        put_cut_cell(&mut l, j.name.as_str(), 20);
        put_cut_cell(&mut l, j.user.as_str(), 12);
        put_cut_cell(&mut l, j.state.as_str(), 12);
        put_cut_cell(&mut l, j.time.as_str(), 12);
        put_cell(&mut l, dec_chars(j.nodes as u64).as_slice(), 6);
        push_all(&mut l, chars_of(j.reason.as_str()).as_slice());
        assert(l@ =~= jobs_table_row(vs[i as int]));
        push_line(&mut out, &l);
        assert(vs.take(i + 1).map_values(|j: JobView| jobs_table_row(j)) =~= vs.take(
            i as int,
        ).map_values(|j: JobView| jobs_table_row(j)).push(jobs_table_row(vs[i as int])));
        i += 1;
    }
    assert(vs.take(vs.len() as int) =~= vs);
    out
}

/// A line of the connection list: label, kind, endpoint and keepalive.
pub open spec fn connection_row(c: ConnectionRecord) -> Seq<char> {
    "  "@ + c.label@ + " ["@ + kind_text(c.kind) + "] "@ + endpoint_text(c) + " keepalive:"@
        + num_or_dash(c.default_keepalive_secs)
}

/// The list of connections, or a note that there are none.
pub open spec fn connections_text(cs: Seq<ConnectionRecord>) -> Seq<Seq<char>> {
    if cs.len() == 0 {
        seq!["No connections configured"@]
    } else {
        seq!["Connections"@] + cs.map_values(|c: ConnectionRecord| connection_row(c))
    }
}

/// The list of connections, or a note that there are none.
pub fn connections_lines(cs: &[ConnectionRecord]) -> (r: Vec<String>)
    ensures
        string_views(r@) == connections_text(cs@),
{
    let mut out: Vec<String> = Vec::new();
    if cs.len() == 0 {
        push_text_line(&mut out, "No connections configured");
        assert(string_views(out@) =~= connections_text(cs@));
        return out;
    }
    push_text_line(&mut out, "Connections");
    let mut i: usize = 0;
    while i < cs.len()
        invariant
            i <= cs@.len(),
            string_views(out@) == seq!["Connections"@] + cs@.take(i as int).map_values(
                |c: ConnectionRecord| connection_row(c),
            ),
        decreases cs@.len() - i,
    {
        let c = &cs[i];
        let mut l = chars_of("  ");
        push_all(&mut l, chars_of(c.label.as_str()).as_slice());
        push_str(&mut l, " [");
        push_all(&mut l, kind_chars(&c.kind).as_slice());
        push_str(&mut l, "] ");
        let endpoint: Vec<char> = match (&c.host, c.port, &c.username) {
            (Some(h), Some(p), Some(u)) => {
                let mut v = chars_of(u.as_str());
                v.push('@');
                push_all(&mut v, chars_of(h.as_str()).as_slice());
                v.push(':');
                push_all(&mut v, dec_chars(p as u64).as_slice());
                v
            },
            _ => chars_of("local"),
        };
        assert(endpoint@ =~= endpoint_text(*c));
        push_all(&mut l, endpoint.as_slice());
        push_str(&mut l, " keepalive:");
        push_all(&mut l, num_or_dash_chars(c.default_keepalive_secs).as_slice());
        assert(l@ =~= connection_row(cs@[i as int]));
        push_line(&mut out, &l);
        assert(cs@.take(i + 1).map_values(|c: ConnectionRecord| connection_row(c)) =~= cs@.take(
            i as int,
        ).map_values(|c: ConnectionRecord| connection_row(c)).push(connection_row(cs@[i as int])));
        i += 1;
    }
    assert(cs@.take(cs@.len() as int) =~= cs@);
    out
}

// ---------------------------------------------------------------------------
// Short reports
// ---------------------------------------------------------------------------

/// A heading, then each item indented by two spaces.
pub open spec fn listed_text(heading: Seq<char>, items: Seq<Seq<char>>) -> Seq<Seq<char>> {
    seq![heading] + items.map_values(|i: Seq<char>| "  "@ + i)
}

fn listed_lines(heading: Vec<char>, items: &Vec<String>) -> (r: Vec<String>)
    ensures
        string_views(r@) == listed_text(heading@, string_views(items@)),
{
    let mut out: Vec<String> = Vec::new();
    push_line(&mut out, &heading);
    let ghost vs = string_views(items@);
    let mut i: usize = 0;
    while i < items.len()
        invariant
            vs == string_views(items@),
            i <= vs.len(),
            string_views(out@) == seq![heading@] + vs.take(i as int).map_values(|x: Seq<char>| "  "@ + x),
        decreases vs.len() - i,
    {
        push_line(&mut out, &labeled("  ", chars_of(items[i].as_str()).as_slice()));
        assert(vs.take(i + 1).map_values(|x: Seq<char>| "  "@ + x) =~= vs.take(i as int).map_values(
            |x: Seq<char>| "  "@ + x,
        ).push("  "@ + vs[i as int]));
        i += 1;
    }
    assert(vs.take(vs.len() as int) =~= vs);
    out
}

/// The report of a cancel request: how many jobs, then each job id.
pub fn cancelled_lines(job_ids: &Vec<String>) -> (r: Vec<String>)
    ensures
        string_views(r@) == listed_text(
            "Cancelled "@ + dec(job_ids@.len()) + " job(s)"@,
            string_views(job_ids@),
        ),
{
    listed_lines(text_num("Cancelled ", job_ids.len() as u64, " job(s)"), job_ids)
}

/// The report of released resources: each cancelled job id.
pub fn released_lines(job_ids: &Vec<String>) -> (r: Vec<String>)
    ensures
        string_views(r@) == listed_text("Resources released"@, string_views(job_ids@)),
{
    listed_lines(chars_of("Resources released"), job_ids)
}

/// A heading, then an id and a yes/no field.
pub open spec fn record_text(heading: Seq<char>, id: Seq<char>, field: Seq<char>, value: bool) -> Seq<
    Seq<char>,
> {
    seq![heading, "  id: "@ + id, "  "@ + field + ": "@ + bool_text(value)]
}

fn record_lines(heading: &str, id: &str, field: &str, value: bool) -> (r: Vec<String>)
    ensures
        string_views(r@) == record_text(heading@, id@, field@, value),
{
    let mut out: Vec<String> = Vec::new();
    push_text_line(&mut out, heading);
    push_line(&mut out, &labeled("  id: ", chars_of(id).as_slice()));
    let mut l = chars_of("  ");
    push_str(&mut l, field);
    push_str(&mut l, ": ");
    push_all(&mut l, bool_chars(value).as_slice());
    push_line(&mut out, &l);
    assert(string_views(out@) =~= record_text(heading@, id@, field@, value));
    out
}

/// The report of an added connection.
pub fn connection_added_lines(connection_id: &str, created: bool) -> (r: Vec<String>)
    ensures
        string_views(r@) == record_text("Connection added"@, connection_id@, "created"@, created),
{
    record_lines("Connection added", connection_id, "created", created)
}

/// The report of a removed connection.
pub fn connection_removed_lines(connection_id: &str, deleted: bool) -> (r: Vec<String>)
    ensures
        string_views(r@) == record_text("Connection removed"@, connection_id@, "deleted"@, deleted),
{
    record_lines("Connection removed", connection_id, "deleted", deleted)
}

/// The report of an upserted session.
pub fn session_upserted_lines(session_id: &str, created: bool) -> (r: Vec<String>)
    ensures
        string_views(r@) == record_text("Session upserted"@, session_id@, "created"@, created),
{
    record_lines("Session upserted", session_id, "created", created)
}

/// The report of a removed session.
pub fn session_removed_line(deleted: bool) -> (r: String)
    ensures
        r@ == "Session removed: "@ + bool_text(deleted),
{
    string_of(labeled("Session removed: ", bool_chars(deleted).as_slice()).as_slice())
}

/// The report of a server's status under `title`.
pub open spec fn server_status_text(title: Seq<char>, d: ServerStatusData) -> Seq<Seq<char>> {
    seq![
        title,
        "  transport: "@ + d.transport@,
        "  endpoint: "@ + d.host@ + seq![':'] + dec(d.port as nat),
        "  runtime: "@ + d.runtime_path@,
        "  db: "@ + d.db_path@,
    ]
}

/// The report of a server's status under `title`.
pub fn server_status_lines(title: &str, d: &ServerStatusData) -> (r: Vec<String>)
    ensures
        string_views(r@) == server_status_text(title@, *d),
{
    let mut out: Vec<String> = Vec::new();
    push_text_line(&mut out, title);
    push_line(&mut out, &labeled("  transport: ", chars_of(d.transport.as_str()).as_slice()));
    let mut e = chars_of("  endpoint: ");
    push_all(&mut e, chars_of(d.host.as_str()).as_slice());
    e.push(':');
    assert(e@ =~= "  endpoint: "@ + d.host@ + seq![':']);
    push_all(&mut e, dec_chars(d.port as u64).as_slice());
    push_line(&mut out, &e);
    push_line(&mut out, &labeled("  runtime: ", chars_of(d.runtime_path.as_str()).as_slice()));
    push_line(&mut out, &labeled("  db: ", chars_of(d.db_path.as_str()).as_slice()));
    assert(string_views(out@) =~= server_status_text(title@, *d));
    out
}

/// The plan of an interactive allocation that is not run.
pub fn alloc_plan_lines(command: &str) -> (r: Vec<String>)
    ensures
        string_views(r@) == seq!["Interactive allocation command"@, "  "@ + command@],
{
    let mut out: Vec<String> = Vec::new();
    push_text_line(&mut out, "Interactive allocation command");
    push_line(&mut out, &labeled("  ", chars_of(command).as_slice()));
    assert(string_views(out@) =~= seq!["Interactive allocation command"@, "  "@ + command@]);
    out
}

/// The report of a submitted batch job.
pub fn submitted_lines(d: &SlurmSubmitData) -> (r: Vec<String>)
    ensures
        string_views(r@) == seq![d.raw_output@, "job_id: "@ + d.job_id@],
{
    let mut out: Vec<String> = Vec::new();
    push_line(&mut out, &chars_of(d.raw_output.as_str()));
    push_line(&mut out, &labeled("job_id: ", chars_of(d.job_id.as_str()).as_slice()));
    assert(string_views(out@) =~= seq![d.raw_output@, "job_id: "@ + d.job_id@]);
    out
}

} // verus!
