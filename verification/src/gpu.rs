//! GPU nodes: the `Gres=` field, the output of `scontrol show node`, and
//! the views of GPU availability that the server answers with.
use vstd::prelude::*;
use crate::error::SlurmError;
use crate::pattern::{extract_pair, extract_single, regex_extract, regex_extract_single};
use crate::proto::{SlurmFindGpuData, SlurmGpuNode, SlurmGpuSummary, SlurmStatusGpuData};
use crate::text::{chars_of, contains_seq, contains_str, eq_ignore_ascii_case, eq_ignore_case, first_word, has_prefix, first_word_chars, lines, lines_of, lower, lower_chars, opt_view, parse_u32, parse_u32_spec, split_char, split_on, string_of, strip_prefix, strip_prefix_str, trim, trim_chars, upper, upper_chars, views};

verus! {

// ---------------------------------------------------------------------------
// Node records
// ---------------------------------------------------------------------------

/// What a GPU node record holds.
pub struct GpuNodeView {
    pub node: Seq<char>,
    pub partition: Seq<char>,
    pub gpu_idle: u32,
    pub gpu_total: u32,
    pub gpu_type: Seq<char>,
    pub cpu_idle: u32,
    pub cpu_total: u32,
}

impl View for SlurmGpuNode {
    type V = GpuNodeView;

    open spec fn view(&self) -> GpuNodeView {
        GpuNodeView {
            node: self.node@,
            partition: self.partition@,
            gpu_idle: self.gpu_idle,
            gpu_total: self.gpu_total,
            gpu_type: self.gpu_type@,
            cpu_idle: self.cpu_idle,
            cpu_total: self.cpu_total,
        }
    }
}

/// A GPU node read from `scontrol show node`, with whether it is drained.
#[derive(Debug, Clone, PartialEq, Eq)]
pub struct ParsedGpuNode {
    pub node: String,
    pub partition: String,
    pub gpu_idle: u32,
    pub gpu_total: u32,
    pub gpu_type: String,
    pub cpu_idle: u32,
    pub cpu_total: u32,
    pub is_drain: bool,
}

pub struct ParsedGpuNodeView {
    pub info: GpuNodeView,
    pub is_drain: bool,
}

impl View for ParsedGpuNode {
    type V = ParsedGpuNodeView;

    open spec fn view(&self) -> ParsedGpuNodeView {
        ParsedGpuNodeView {
            info: GpuNodeView {
                node: self.node@,
                partition: self.partition@,
                gpu_idle: self.gpu_idle,
                gpu_total: self.gpu_total,
                gpu_type: self.gpu_type@,
                cpu_idle: self.cpu_idle,
                cpu_total: self.cpu_total,
            },
            is_drain: self.is_drain,
        }
    }
}

pub open spec fn parsed_views(s: Seq<ParsedGpuNode>) -> Seq<ParsedGpuNodeView> {
    s.map_values(|n: ParsedGpuNode| n@)
}

pub open spec fn node_views(s: Seq<SlurmGpuNode>) -> Seq<GpuNodeView> {
    s.map_values(|n: SlurmGpuNode| n@)
}

/// The public record of a parsed node.
pub fn gpu_node_public(node: &ParsedGpuNode) -> (r: SlurmGpuNode)
    ensures
        r@ == node@.info,
{
    SlurmGpuNode {
        node: node.node.clone(),
        partition: node.partition.clone(),
        gpu_idle: node.gpu_idle,
        gpu_total: node.gpu_total,
        gpu_type: node.gpu_type.clone(),
        cpu_idle: node.cpu_idle,
        cpu_total: node.cpu_total,
    }
}

// ---------------------------------------------------------------------------
// The `Gres=` field
// ---------------------------------------------------------------------------

pub open spec fn typed_gres_pattern() -> Seq<char> {
    "gpu:([a-zA-Z_]\\w*):(\\d+)"@
}

pub open spec fn simple_gres_pattern() -> Seq<char> {
    "gpu:(\\d+)"@
}

/// The GPU count and type given the typed (`gpu:<type>:<n>`) and simple
/// (`gpu:<n>`) matches: the typed one when its count parses, else the simple
/// one with type `unknown`, else no GPU.
pub open spec fn gres_choice(typed: Option<(Seq<char>, Seq<char>)>, simple: Option<Seq<char>>) -> (
    u32,
    Seq<char>,
) {
    match typed {
        Some(p) if parse_u32_spec(p.1) is Some => (parse_u32_spec(p.1)->0, p.0),
        _ => match simple {
            Some(c) if parse_u32_spec(c) is Some => (parse_u32_spec(c)->0, "unknown"@),
            _ => (0, Seq::<char>::empty()),
        },
    }
}

/// The GPU count and (lower-case) type that a `Gres=` value declares.
pub open spec fn gpu_gres_spec(gres: Seq<char>) -> (u32, Seq<char>) {
    let l = lower(gres);
    gres_choice(extract_pair(typed_gres_pattern(), l), extract_single(simple_gres_pattern(), l))
}

pub open spec fn pair_view(p: Option<(String, String)>) -> Option<(Seq<char>, Seq<char>)> {
    match p {
        Some((a, b)) => Some((a@, b@)),
        None => None,
    }
}

/// The GPU count and type, given the matches of the typed and simple forms.
pub fn gpu_gres_from_matches(typed: Option<(String, String)>, simple: Option<String>) -> (r: (
    u32,
    String,
))
    ensures
        (r.0, r.1@) == gres_choice(pair_view(typed), opt_view(simple)),
{
    if let Some((gpu_type, count)) = typed {
        let cs = chars_of(count.as_str());
        if let Some(n) = parse_u32(cs.as_slice()) {
            return (n, gpu_type);
        }
    }
    if let Some(count) = simple {
        let cs = chars_of(count.as_str());
        if let Some(n) = parse_u32(cs.as_slice()) {
            let u = chars_of("unknown");
            return (n, string_of(u.as_slice()));
        }
    }
    (0, String::new())
}

/// The GPU count and type that a `Gres=` value declares, matched on its
/// lower-case form: `gpu:a100:4` gives `(4, "a100")`, `gpu:8` gives
/// `(8, "unknown")`, anything else `(0, "")`.
pub fn parse_gpu_gres(gres: &str) -> (r: (u32, String))
    ensures
        (r.0, r.1@) == gpu_gres_spec(gres@),
{
    let g = chars_of(gres);
    let l = lower_chars(g.as_slice());
    let lower_text = string_of(l.as_slice());
    let typed = regex_extract(lower_text.as_str(), "gpu:([a-zA-Z_]\\w*):(\\d+)");
    let simple = regex_extract_single(lower_text.as_str(), "gpu:(\\d+)");
    gpu_gres_from_matches(typed, simple)
}

// ---------------------------------------------------------------------------
// `scontrol show node`
// ---------------------------------------------------------------------------

pub open spec fn alloc_gpu_pattern() -> Seq<char> {
    "gres/gpu=(\\d+)"@
}

pub open spec fn cpu_alloc_pattern() -> Seq<char> {
    "CPUAlloc=(\\d+)"@
}

pub open spec fn cpu_tot_pattern() -> Seq<char> {
    "CPUTot=(\\d+)"@
}

pub open spec fn opt_parse(o: Option<Seq<char>>) -> Option<u32> {
    match o {
        Some(v) => parse_u32_spec(v),
        None => None,
    }
}

pub open spec fn sat_sub(a: u32, b: u32) -> u32 {
    if a >= b {
        (a - b) as u32
    } else {
        0
    }
}

/// What the scan of `scontrol` output holds between lines: the nodes read so
/// far and the fields of the node being read.
pub struct ScanState {
    pub nodes: Seq<ParsedGpuNodeView>,
    pub node: Option<Seq<char>>,
    pub gres: Option<Seq<char>>,
    pub alloc_tres: Option<Seq<char>>,
    pub partition: Option<Seq<char>>,
    pub cpu_alloc: Option<u32>,
    pub cpu_total: Option<u32>,
    pub state: Option<Seq<char>>,
}

pub open spec fn scan_init() -> ScanState {
    ScanState {
        nodes: Seq::empty(),
        node: None,
        gres: None,
        alloc_tres: None,
        partition: None,
        cpu_alloc: None,
        cpu_total: None,
        state: None,
    }
}

/// The node that the fields describe, once its name, GPU count and type are known.
pub open spec fn node_of_fields(
    name: Seq<char>,
    total: u32,
    gpu_type: Seq<char>,
    alloc_tres: Option<Seq<char>>,
    partition: Option<Seq<char>>,
    cpu_alloc: Option<u32>,
    cpu_total: Option<u32>,
    state: Option<Seq<char>>,
) -> ParsedGpuNodeView {
    let gpu_alloc = match alloc_tres {
        Some(a) => match opt_parse(extract_single(alloc_gpu_pattern(), a)) {
            Some(n) => n,
            None => 0,
        },
        None => 0,
    };
    let ct = match cpu_total {
        Some(n) => n,
        None => 0,
    };
    let ca = match cpu_alloc {
        Some(n) => n,
        None => 0,
    };
    let st = match state {
        Some(s) => s,
        None => "UNKNOWN"@,
    };
    ParsedGpuNodeView {
        info: GpuNodeView {
            node: name,
            partition: match partition {
                Some(p) => p,
                None => "unknown"@,
            },
            gpu_idle: sat_sub(total, gpu_alloc),
            gpu_total: total,
            gpu_type: if gpu_type.len() == 0 {
                "GPU"@
            } else {
                upper(gpu_type)
            },
            cpu_idle: sat_sub(ct, ca),
            cpu_total: ct,
        },
        is_drain: contains_seq(upper(st), "DRAIN"@),
    }
}

/// Ends the node being read: a node with a name and a `Gres=` that declares
/// GPUs is recorded. The name and `Gres=` are consumed in any case; the other
/// fields only when a node is recorded.
pub open spec fn flush(st: ScanState) -> ScanState {
    match st.node {
        None => st,
        Some(name) => match st.gres {
            None => ScanState { node: None, ..st },
            Some(gres) => {
                let st1 = ScanState { node: None, gres: None, ..st };
                let (total, ty) = gpu_gres_spec(gres);
                if !contains_seq(lower(gres), "gpu"@) || total == 0 {
                    st1
                } else {
                    ScanState {
                        nodes: st.nodes.push(
                            node_of_fields(
                                name,
                                total,
                                ty,
                                st.alloc_tres,
                                st.partition,
                                st.cpu_alloc,
                                st.cpu_total,
                                st.state,
                            ),
                        ),
                        node: None,
                        gres: None,
                        alloc_tres: None,
                        partition: None,
                        cpu_alloc: None,
                        cpu_total: None,
                        state: None,
                    }
                }
            },
        },
    }
}

/// Reads one line of `scontrol show node` output.
pub open spec fn scan_line(st: ScanState, raw: Seq<char>) -> ScanState {
    let line = trim(raw);
    if strip_prefix(line, "NodeName="@) is Some {
        let f = flush(st);
        let name = first_word(strip_prefix(line, "NodeName="@)->0);
        if name.len() > 0 {
            ScanState { node: Some(name), ..f }
        } else {
            f
        }
    } else if strip_prefix(line, "State="@) is Some {
        ScanState { state: strip_prefix(line, "State="@), ..st }
    } else if strip_prefix(line, "Gres="@) is Some {
        ScanState { gres: strip_prefix(line, "Gres="@), ..st }
    } else if strip_prefix(line, "Partitions="@) is Some {
        ScanState { partition: strip_prefix(line, "Partitions="@), ..st }
    } else if strip_prefix(line, "AllocTRES="@) is Some {
        ScanState { alloc_tres: strip_prefix(line, "AllocTRES="@), ..st }
    } else {
        let st1 = if contains_seq(line, "CPUAlloc="@) {
            ScanState { cpu_alloc: opt_parse(extract_single(cpu_alloc_pattern(), line)), ..st }
        } else {
            st
        };
        if contains_seq(line, "CPUTot="@) {
            ScanState { cpu_total: opt_parse(extract_single(cpu_tot_pattern(), line)), ..st1 }
        } else {
            st1
        }
    }
}

/// The state after reading the given lines.
pub open spec fn scan_lines(ls: Seq<Seq<char>>) -> ScanState
    decreases ls.len(),
{
    if ls.len() == 0 {
        scan_init()
    } else {
        scan_line(scan_lines(ls.drop_last()), ls.last())
    }
}

/// The GPU nodes that `scontrol show node` output describes, in order.
pub open spec fn scontrol_gpu_nodes(stdout: Seq<char>) -> Seq<ParsedGpuNodeView> {
    flush(scan_lines(lines(stdout))).nodes
}

struct Scan {
    nodes: Vec<ParsedGpuNode>,
    node: Option<String>,
    gres: Option<String>,
    alloc_tres: Option<String>,
    partition: Option<String>,
    cpu_alloc: Option<u32>,
    cpu_total: Option<u32>,
    state: Option<String>,
}

impl View for Scan {
    type V = ScanState;

    closed spec fn view(&self) -> ScanState {
        ScanState {
            nodes: parsed_views(self.nodes@),
            node: opt_view(self.node),
            gres: opt_view(self.gres),
            alloc_tres: opt_view(self.alloc_tres),
            partition: opt_view(self.partition),
            cpu_alloc: self.cpu_alloc,
            cpu_total: self.cpu_total,
            state: opt_view(self.state),
        }
    }
}

fn parse_opt_u32(o: Option<String>) -> (r: Option<u32>)
    ensures
        r == opt_parse(opt_view(o)),
{
    match o {
        Some(v) => {
            let cs = chars_of(v.as_str());
            parse_u32(cs.as_slice())
        },
        None => None,
    }
}

fn sub_or_zero(a: u32, b: u32) -> (r: u32)
    ensures
        r == sat_sub(a, b),
{
    if a >= b {
        a - b
    } else {
        0
    }
}

/// The node that the fields describe, once its name, GPU count and type are known.
fn build_node(
    name: String,
    total: u32,
    gpu_type: String,
    alloc_tres: Option<String>,
    partition: Option<String>,
    cpu_alloc: Option<u32>,
    cpu_total: Option<u32>,
    state: Option<String>,
) -> (r: ParsedGpuNode)
    ensures
        r@ == node_of_fields(
            name@,
            total,
            gpu_type@,
            opt_view(alloc_tres),
            opt_view(partition),
            cpu_alloc,
            cpu_total,
            opt_view(state),
        ),
{
    let gpu_alloc: u32 = match alloc_tres {
        Some(a) => match parse_opt_u32(regex_extract_single(a.as_str(), "gres/gpu=(\\d+)")) {
            Some(n) => n,
            None => 0,
        },
        None => 0,
    };
    let ct: u32 = match cpu_total {
        Some(n) => n,
        None => 0,
    };
    let ca: u32 = match cpu_alloc {
        Some(n) => n,
        None => 0,
    };
    let st: String = match state {
        Some(s) => s,
        None => "UNKNOWN".to_owned(),
    };
    let part: String = match partition {
        Some(p) => p,
        None => "unknown".to_owned(),
    };
    let t = chars_of(gpu_type.as_str());
    let ty: String = if t.len() == 0 {
        "GPU".to_owned()
    } else {
        let u = upper_chars(t.as_slice());
        string_of(u.as_slice())
    };
    let sc = chars_of(st.as_str());
    let su = upper_chars(sc.as_slice());
    let drain = contains_str(su.as_slice(), "DRAIN");
    ParsedGpuNode {
        node: name,
        partition: part,
        gpu_idle: sub_or_zero(total, gpu_alloc),
        gpu_total: total,
        gpu_type: ty,
        cpu_idle: sub_or_zero(ct, ca),
        cpu_total: ct,
        is_drain: drain,
    }
}

fn flush_scan(st: Scan) -> (r: Scan)
    ensures
        r@ == flush(st@),
{
    let Scan { mut nodes, node, gres, alloc_tres, partition, cpu_alloc, cpu_total, state } = st;
    match node {
        None => Scan { nodes, node: None, gres, alloc_tres, partition, cpu_alloc, cpu_total, state },
        Some(name) => match gres {
            None => Scan {
                nodes,
                node: None,
                gres: None,
                alloc_tres,
                partition,
                cpu_alloc,
                cpu_total,
                state,
            },
            Some(g) => {
                let gc = chars_of(g.as_str());
                let gl = lower_chars(gc.as_slice());
                let has_gpu = contains_str(gl.as_slice(), "gpu");
                let (total, ty) = parse_gpu_gres(g.as_str());
                if !has_gpu || total == 0 {
                    Scan {
                        nodes,
                        node: None,
                        gres: None,
                        alloc_tres,
                        partition,
                        cpu_alloc,
                        cpu_total,
                        state,
                    }
                } else {
                    let n = build_node(
                        name,
                        total,
                        ty,
                        alloc_tres,
                        partition,
                        cpu_alloc,
                        cpu_total,
                        state,
                    );
                    let ghost before = parsed_views(nodes@);
                    nodes.push(n);
                    assert(parsed_views(nodes@) =~= before.push(n@));
                    Scan {
                        nodes,
                        node: None,
                        gres: None,
                        alloc_tres: None,
                        partition: None,
                        cpu_alloc: None,
                        cpu_total: None,
                        state: None,
                    }
                }
            },
        },
    }
}

fn scan_one_line(st: Scan, raw: &[char]) -> (r: Scan)
    ensures
        r@ == scan_line(st@, raw@),
{
    let line = trim_chars(raw);
    if let Some(rest) = strip_prefix_str(line.as_slice(), "NodeName=") {
        let f = flush_scan(st);
        let name = first_word_chars(rest.as_slice());
        if name.len() > 0 {
            let Scan { nodes, node: _, gres, alloc_tres, partition, cpu_alloc, cpu_total, state } =
                f;
            return Scan {
                nodes,
                node: Some(string_of(name.as_slice())),
                gres,
                alloc_tres,
                partition,
                cpu_alloc,
                cpu_total,
                state,
            };
        }
        return f;
    }
    let Scan { nodes, node, gres, alloc_tres, partition, cpu_alloc, cpu_total, state } = st;
    if let Some(rest) = strip_prefix_str(line.as_slice(), "State=") {
        return Scan {
            nodes,
            node,
            gres,
            alloc_tres,
            partition,
            cpu_alloc,
            cpu_total,
            state: Some(string_of(rest.as_slice())),
        };
    }
    if let Some(rest) = strip_prefix_str(line.as_slice(), "Gres=") {
        return Scan {
            nodes,
            node,
            gres: Some(string_of(rest.as_slice())),
            alloc_tres,
            partition,
            cpu_alloc,
            cpu_total,
            state,
        };
    }
    if let Some(rest) = strip_prefix_str(line.as_slice(), "Partitions=") {
        return Scan {
            nodes,
            node,
            gres,
            alloc_tres,
            partition: Some(string_of(rest.as_slice())),
            cpu_alloc,
            cpu_total,
            state,
        };
    }
    if let Some(rest) = strip_prefix_str(line.as_slice(), "AllocTRES=") {
        return Scan {
            nodes,
            node,
            gres,
            alloc_tres: Some(string_of(rest.as_slice())),
            partition,
            cpu_alloc,
            cpu_total,
            state,
        };
    }
    let line_text = string_of(line.as_slice());
    let mut alloc = cpu_alloc;
    let mut tot = cpu_total;
    if contains_str(line.as_slice(), "CPUAlloc=") {
        alloc = parse_opt_u32(regex_extract_single(line_text.as_str(), "CPUAlloc=(\\d+)"));
    }
    if contains_str(line.as_slice(), "CPUTot=") {
        tot = parse_opt_u32(regex_extract_single(line_text.as_str(), "CPUTot=(\\d+)"));
    }
    Scan { nodes, node, gres, alloc_tres, partition, cpu_alloc: alloc, cpu_total: tot, state }
}

/// The GPU nodes described by `scontrol show node` output, in order. A node
/// block starts at a `NodeName=` line; `State=`, `Gres=`, `Partitions=` and
/// `AllocTRES=` lines and `CPUAlloc=`/`CPUTot=` fields fill it in. Nodes
/// whose `Gres=` declares no GPU are left out.
pub fn parse_scontrol_gpu_nodes_output(stdout: &str) -> (r: Result<Vec<ParsedGpuNode>, SlurmError>)
    ensures
        r is Ok,
        r matches Ok(nodes) ==> parsed_views(nodes@) == scontrol_gpu_nodes(stdout@),
{
    let text = chars_of(stdout);
    let ls = lines_of(text.as_slice());
    let mut st = Scan {
        nodes: Vec::new(),
        node: None,
        gres: None,
        alloc_tres: None,
        partition: None,
        cpu_alloc: None,
        cpu_total: None,
        state: None,
    };
    assert(parsed_views(st.nodes@) =~= Seq::<ParsedGpuNodeView>::empty());
    let ghost all = views(ls@);
    let mut i: usize = 0;
    assert(all.take(0) =~= Seq::<Seq<char>>::empty());
    while i < ls.len()
        invariant
            all == views(ls@),
            all == lines(text@),
            i <= ls@.len(),
            st@ == scan_lines(all.take(i as int)),
        decreases ls@.len() - i,
    {
        assert(all.take(i + 1).drop_last() =~= all.take(i as int));
        assert(all.take(i + 1).last() == ls@[i as int]@);
        st = scan_one_line(st, ls[i].as_slice());
        i += 1;
    }
    assert(all.take(ls@.len() as int) == all);
    let fin = flush_scan(st);
    Ok(fin.nodes)
}


// ---------------------------------------------------------------------------
// Partition tokens, summaries, and the two GPU views
// ---------------------------------------------------------------------------

/// `needle` is one of the comma-separated entries of `haystack`, compared
/// after trimming and ignoring ASCII case.
pub open spec fn token_match(haystack: Seq<char>, needle: Seq<char>) -> bool {
    let parts = split_char(haystack, ',');
    exists|i: int| 0 <= i < parts.len() && eq_ignore_case(#[trigger] trim(parts[i]), needle)
}

/// Whether `needle` is one of the comma-separated entries of `haystack`
/// (trimmed, ASCII case ignored).
pub fn matches_token(haystack: &str, needle: &str) -> (r: bool)
    ensures
        r == token_match(haystack@, needle@),
{
    let h = chars_of(haystack);
    let n = chars_of(needle);
    let parts = split_on(h.as_slice(), ',');
    let ghost ps = views(parts@);
    let mut i: usize = 0;
    while i < parts.len()
        invariant
            ps == views(parts@),
            ps == split_char(h@, ','),
            h@ == haystack@,
            n@ == needle@,
            i <= parts@.len(),
            forall|j: int| 0 <= j < i ==> !eq_ignore_case(#[trigger] trim(ps[j]), n@),
        decreases parts@.len() - i,
    {
        let t = trim_chars(parts[i].as_slice());
        assert(ps[i as int] == parts@[i as int]@);
        if eq_ignore_ascii_case(t.as_slice(), n.as_slice()) {
            assert(eq_ignore_case(trim(ps[i as int]), needle@));
            return true;
        }
        i += 1;
    }
    false
}

pub open spec fn total_gpus(s: Seq<GpuNodeView>) -> nat
    decreases s.len(),
{
    if s.len() == 0 {
        0
    } else {
        total_gpus(s.drop_last()) + s.last().gpu_total as nat
    }
}

pub open spec fn idle_gpus(s: Seq<GpuNodeView>) -> nat
    decreases s.len(),
{
    if s.len() == 0 {
        0
    } else {
        idle_gpus(s.drop_last()) + s.last().gpu_idle as nat
    }
}

pub proof fn lemma_sums_prefix(s: Seq<GpuNodeView>, i: int)
    requires
        0 <= i <= s.len(),
    ensures
        total_gpus(s.take(i)) <= total_gpus(s),
        idle_gpus(s.take(i)) <= idle_gpus(s),
    decreases s.len() - i,
{
    if i < s.len() {
        lemma_sums_prefix(s, i + 1);
        assert(s.take(i + 1).drop_last() == s.take(i));
    } else {
        assert(s.take(i) == s);
    }
}

/// The summary of a list of nodes: how many, and their GPUs in total and idle.
pub fn gpu_summary(nodes: &[SlurmGpuNode]) -> (r: SlurmGpuSummary)
    requires
        total_gpus(node_views(nodes@)) <= u32::MAX,
        idle_gpus(node_views(nodes@)) <= u32::MAX,
    ensures
        r.available_nodes == nodes@.len() as u32,
        r.total_gpu == total_gpus(node_views(nodes@)),
        r.idle_gpu == idle_gpus(node_views(nodes@)),
{
    let ghost v = node_views(nodes@);
    let mut total: u32 = 0;
    let mut idle: u32 = 0;
    let mut i: usize = 0;
    assert(v.take(0) =~= Seq::<GpuNodeView>::empty());
    while i < nodes.len()
        invariant
            v == node_views(nodes@),
            total_gpus(v) <= u32::MAX,
            idle_gpus(v) <= u32::MAX,
            i <= nodes@.len(),
            total == total_gpus(v.take(i as int)),
            idle == idle_gpus(v.take(i as int)),
        decreases nodes@.len() - i,
    {
        assert(v.take(i + 1).drop_last() =~= v.take(i as int));
        assert(v.take(i + 1).last() == nodes@[i as int]@);
        proof {
            lemma_sums_prefix(v, i + 1);
        }
        total = total + nodes[i].gpu_total;
        idle = idle + nodes[i].gpu_idle;
        i += 1;
    }
    assert(v.take(nodes@.len() as int) == v);
    SlurmGpuSummary { available_nodes: nodes.len() as u32, total_gpu: total, idle_gpu: idle }
}

/// The records of the nodes that `keep` selects, in order.
pub open spec fn select_nodes(s: Seq<ParsedGpuNodeView>, keep: spec_fn(ParsedGpuNodeView) -> bool) -> Seq<
    GpuNodeView,
>
    decreases s.len(),
{
    if s.len() == 0 {
        Seq::empty()
    } else {
        let p = select_nodes(s.drop_last(), keep);
        if keep(s.last()) {
            p.push(s.last().info)
        } else {
            p
        }
    }
}

pub open spec fn infos(s: Seq<ParsedGpuNodeView>) -> Seq<GpuNodeView> {
    s.map_values(|n: ParsedGpuNodeView| n.info)
}

/// One more node either joins a selection or leaves it as it was.
pub proof fn lemma_select_step(s: Seq<ParsedGpuNodeView>, i: int, k: spec_fn(ParsedGpuNodeView) -> bool)
    requires
        0 <= i < s.len(),
    ensures
        select_nodes(s.take(i + 1), k) == (if k(s[i]) {
            select_nodes(s.take(i), k).push(s[i].info)
        } else {
            select_nodes(s.take(i), k)
        }),
{
    assert(s.take(i + 1).drop_last() =~= s.take(i));
    assert(s.take(i + 1).last() == s[i]);
}

pub open spec fn partition_matches(n: ParsedGpuNodeView, partition: Option<Seq<char>>) -> bool {
    match partition {
        Some(p) => token_match(n.info.partition, p),
        None => true,
    }
}

/// Selects the nodes of a partition that are drained (`drain`) or not.
pub open spec fn status_keep(partition: Option<Seq<char>>, drain: bool) -> spec_fn(
    ParsedGpuNodeView,
) -> bool {
    |n: ParsedGpuNodeView| partition_matches(n, partition) && n.is_drain == drain
}

pub open spec fn str_opt_view(o: Option<&str>) -> Option<Seq<char>> {
    match o {
        Some(s) => Some(s@),
        None => None,
    }
}

fn partition_ok(n: &ParsedGpuNode, partition: Option<&str>) -> (r: bool)
    ensures
        r == partition_matches(n@, str_opt_view(partition)),
{
    match partition {
        Some(p) => matches_token(n.partition.as_str(), p),
        None => true,
    }
}

/// The nodes of a partition (all nodes when none is given), split into
/// available and drained ones, with a summary of the available ones.
pub fn status_gpu_from_nodes(nodes: Vec<ParsedGpuNode>, partition: Option<&str>) -> (r:
    SlurmStatusGpuData)
    requires
        total_gpus(select_nodes(parsed_views(nodes@), status_keep(str_opt_view(partition), false)))
            <= u32::MAX,
        idle_gpus(select_nodes(parsed_views(nodes@), status_keep(str_opt_view(partition), false)))
            <= u32::MAX,
    ensures
        node_views(r.available_nodes@) == select_nodes(
            parsed_views(nodes@),
            status_keep(str_opt_view(partition), false),
        ),
        node_views(r.drain_nodes@) == select_nodes(
            parsed_views(nodes@),
            status_keep(str_opt_view(partition), true),
        ),
        r.summary.available_nodes == r.available_nodes@.len() as u32,
        r.summary.total_gpu == total_gpus(node_views(r.available_nodes@)),
        r.summary.idle_gpu == idle_gpus(node_views(r.available_nodes@)),
{
    let ghost pv = parsed_views(nodes@);
    let ghost ka = status_keep(str_opt_view(partition), false);
    let ghost kd = status_keep(str_opt_view(partition), true);
    let mut available_nodes: Vec<SlurmGpuNode> = Vec::new();
    let mut drain_nodes: Vec<SlurmGpuNode> = Vec::new();
    let mut i: usize = 0;
    assert(pv.take(0) =~= Seq::<ParsedGpuNodeView>::empty());
    while i < nodes.len()
        invariant
            pv == parsed_views(nodes@),
            ka == status_keep(str_opt_view(partition), false),
            kd == status_keep(str_opt_view(partition), true),
            i <= nodes@.len(),
            node_views(available_nodes@) == select_nodes(pv.take(i as int), ka),
            node_views(drain_nodes@) == select_nodes(pv.take(i as int), kd),
        decreases nodes@.len() - i,
    {
        proof {
            lemma_select_step(pv, i as int, ka);
            lemma_select_step(pv, i as int, kd);
        }
        assert(pv[i as int] == nodes@[i as int]@);
        let node = &nodes[i];
        let keep = partition_ok(node, partition);
        assert(ka(pv[i as int]) == (keep && !node.is_drain));
        assert(kd(pv[i as int]) == (keep && node.is_drain));
        if keep {
            let public = gpu_node_public(node);
            if node.is_drain {
                let ghost before = node_views(drain_nodes@);
                drain_nodes.push(public);
                assert(node_views(drain_nodes@) =~= before.push(public@));
            } else {
                let ghost before = node_views(available_nodes@);
                available_nodes.push(public);
                assert(node_views(available_nodes@) =~= before.push(public@));
            }
        }
        i += 1;
    }
    assert(pv.take(nodes@.len() as int) == pv);
    let summary = gpu_summary(available_nodes.as_slice());
    SlurmStatusGpuData { summary, available_nodes, drain_nodes }
}

fn copy_node(n: &SlurmGpuNode) -> (r: SlurmGpuNode)
    ensures
        r@ == n@,
{
    SlurmGpuNode {
        node: n.node.clone(),
        partition: n.partition.clone(),
        gpu_idle: n.gpu_idle,
        gpu_total: n.gpu_total,
        gpu_type: n.gpu_type.clone(),
        cpu_idle: n.cpu_idle,
        cpu_total: n.cpu_total,
    }
}

/// Selects the nodes of a GPU type: drained ones (`group` 2), or undrained
/// ones with an idle GPU (`group` 0) or without (`group` 1).
pub open spec fn find_keep(gpu_type: Option<Seq<char>>, group: int) -> spec_fn(
    ParsedGpuNodeView,
) -> bool {
    |n: ParsedGpuNodeView|
        gpu_type_matches(n, gpu_type) && if group == 2 {
            n.is_drain
        } else if group == 0 {
            !n.is_drain && n.info.gpu_idle > 0
        } else {
            !n.is_drain && n.info.gpu_idle == 0
        }
}

pub open spec fn gpu_type_matches(n: ParsedGpuNodeView, gpu_type: Option<Seq<char>>) -> bool {
    match gpu_type {
        Some(t) => eq_ignore_case(n.info.gpu_type, t),
        None => true,
    }
}

fn gpu_type_ok(n: &ParsedGpuNode, gpu_type: Option<&str>) -> (r: bool)
    ensures
        r == gpu_type_matches(n@, str_opt_view(gpu_type)),
{
    match gpu_type {
        Some(t) => {
            let a = chars_of(n.gpu_type.as_str());
            let b = chars_of(t);
            eq_ignore_ascii_case(a.as_slice(), b.as_slice())
        },
        None => true,
    }
}

/// The nodes of a GPU type (all nodes when none is given), split into those
/// with an idle GPU, those without, and drained ones, with a summary of the
/// first two groups together.
pub fn find_gpu_from_nodes(nodes: Vec<ParsedGpuNode>, gpu_type: Option<&str>) -> (r:
    SlurmFindGpuData)
    requires
        find_sums_fit(parsed_views(nodes@), str_opt_view(gpu_type)),
    ensures
        node_views(r.available_nodes@) == select_nodes(
            parsed_views(nodes@),
            find_keep(str_opt_view(gpu_type), 0),
        ),
        node_views(r.busy_nodes@) == select_nodes(
            parsed_views(nodes@),
            find_keep(str_opt_view(gpu_type), 1),
        ),
        node_views(r.drain_nodes@) == select_nodes(
            parsed_views(nodes@),
            find_keep(str_opt_view(gpu_type), 2),
        ),
        r.summary.available_nodes == (r.available_nodes@.len() + r.busy_nodes@.len()) as u32,
        r.summary.total_gpu == total_gpus(node_views(r.available_nodes@)) + total_gpus(
            node_views(r.busy_nodes@),
        ),
        r.summary.idle_gpu == idle_gpus(node_views(r.available_nodes@)) + idle_gpus(
            node_views(r.busy_nodes@),
        ),
{
    let ghost pv = parsed_views(nodes@);
    let ghost ka = find_keep(str_opt_view(gpu_type), 0);
    let ghost kb = find_keep(str_opt_view(gpu_type), 1);
    let ghost kd = find_keep(str_opt_view(gpu_type), 2);
    let mut available_nodes: Vec<SlurmGpuNode> = Vec::new();
    let mut busy_nodes: Vec<SlurmGpuNode> = Vec::new();
    let mut drain_nodes: Vec<SlurmGpuNode> = Vec::new();
    let mut i: usize = 0;
    assert(pv.take(0) =~= Seq::<ParsedGpuNodeView>::empty());
    while i < nodes.len()
        invariant
            pv == parsed_views(nodes@),
            ka == find_keep(str_opt_view(gpu_type), 0),
            kb == find_keep(str_opt_view(gpu_type), 1),
            kd == find_keep(str_opt_view(gpu_type), 2),
            i <= nodes@.len(),
            node_views(available_nodes@) == select_nodes(pv.take(i as int), ka),
            node_views(busy_nodes@) == select_nodes(pv.take(i as int), kb),
            node_views(drain_nodes@) == select_nodes(pv.take(i as int), kd),
        decreases nodes@.len() - i,
    {
        proof {
            lemma_select_step(pv, i as int, ka);
            lemma_select_step(pv, i as int, kb);
            lemma_select_step(pv, i as int, kd);
        }
        assert(pv[i as int] == nodes@[i as int]@);
        let node = &nodes[i];
        let keep = gpu_type_ok(node, gpu_type);
        assert(ka(pv[i as int]) == (keep && !node.is_drain && node.gpu_idle > 0));
        assert(kb(pv[i as int]) == (keep && !node.is_drain && node.gpu_idle == 0));
        assert(kd(pv[i as int]) == (keep && node.is_drain));
        if keep {
            let public = gpu_node_public(node);
            if node.is_drain {
                let ghost before = node_views(drain_nodes@);
                drain_nodes.push(public);
                assert(node_views(drain_nodes@) =~= before.push(public@));
            } else if node.gpu_idle > 0 {
                let ghost before = node_views(available_nodes@);
                available_nodes.push(public);
                assert(node_views(available_nodes@) =~= before.push(public@));
            } else {
                let ghost before = node_views(busy_nodes@);
                busy_nodes.push(public);
                assert(node_views(busy_nodes@) =~= before.push(public@));
            }
        }
        i += 1;
    }
    assert(pv.take(nodes@.len() as int) == pv);
    let mut summary_nodes: Vec<SlurmGpuNode> = Vec::new();
    let mut j: usize = 0;
    while j < available_nodes.len()
        invariant
            j <= available_nodes@.len(),
            node_views(summary_nodes@) == node_views(available_nodes@).take(j as int),
        decreases available_nodes@.len() - j,
    {
        let ghost before = node_views(summary_nodes@);
        let c = copy_node(&available_nodes[j]);
        summary_nodes.push(c);
        assert(node_views(summary_nodes@) =~= before.push(available_nodes@[j as int]@));
        assert(node_views(available_nodes@).take(j + 1) =~= node_views(available_nodes@).take(
            j as int,
        ).push(available_nodes@[j as int]@));
        j += 1;
    }
    let mut k: usize = 0;
    while k < busy_nodes.len()
        invariant
            k <= busy_nodes@.len(),
            node_views(summary_nodes@) == node_views(available_nodes@) + node_views(
                busy_nodes@,
            ).take(k as int),
        decreases busy_nodes@.len() - k,
    {
        let ghost before = node_views(summary_nodes@);
        let c = copy_node(&busy_nodes[k]);
        summary_nodes.push(c);
        assert(node_views(summary_nodes@) =~= before.push(busy_nodes@[k as int]@));
        assert(node_views(busy_nodes@).take(k + 1) =~= node_views(busy_nodes@).take(k as int).push(
            busy_nodes@[k as int]@,
        ));
        k += 1;
    }
    proof {
        assert(node_views(available_nodes@).take(available_nodes@.len() as int) =~= node_views(available_nodes@));
        assert(node_views(busy_nodes@).take(busy_nodes@.len() as int) =~= node_views(busy_nodes@));
        lemma_sums_concat(node_views(available_nodes@), node_views(busy_nodes@));
    }
    let summary = gpu_summary(summary_nodes.as_slice());
    SlurmFindGpuData { summary, available_nodes, busy_nodes, drain_nodes }
}

pub proof fn lemma_sums_concat(a: Seq<GpuNodeView>, b: Seq<GpuNodeView>)
    ensures
        total_gpus(a + b) == total_gpus(a) + total_gpus(b),
        idle_gpus(a + b) == idle_gpus(a) + idle_gpus(b),
    decreases b.len(),
{
    if b.len() == 0 {
        assert(a + b =~= a);
    } else {
        lemma_sums_concat(a, b.drop_last());
        assert((a + b).drop_last() =~= a + b.drop_last());
    }
}

/// The GPUs of the nodes that a search summarizes (those with an idle GPU
/// and those without) fit in the summary's counters.
pub open spec fn find_sums_fit(s: Seq<ParsedGpuNodeView>, gpu_type: Option<Seq<char>>) -> bool {
    &&& total_gpus(select_nodes(s, find_keep(gpu_type, 0))) + total_gpus(
        select_nodes(s, find_keep(gpu_type, 1)),
    ) <= u32::MAX
    &&& idle_gpus(select_nodes(s, find_keep(gpu_type, 0))) + idle_gpus(
        select_nodes(s, find_keep(gpu_type, 1)),
    ) <= u32::MAX
}

/// A selection of a prefix holds no more GPUs than the selection of the whole.
pub proof fn lemma_select_prefix_sums(s: Seq<ParsedGpuNodeView>, i: int, k: spec_fn(ParsedGpuNodeView) -> bool)
    requires
        0 <= i <= s.len(),
    ensures
        total_gpus(select_nodes(s.take(i), k)) <= total_gpus(select_nodes(s, k)),
        idle_gpus(select_nodes(s.take(i), k)) <= idle_gpus(select_nodes(s, k)),
    decreases s.len() - i,
{
    if i < s.len() {
        lemma_select_step(s, i, k);
        let p = select_nodes(s.take(i), k);
        if k(s[i]) {
            assert(p.push(s[i].info).drop_last() =~= p);
        }
        lemma_select_prefix_sums(s, i + 1, k);
    } else {
        assert(s.take(i) == s);
    }
}

/// Whether the summary of a partition's GPU status fits in its counters, so
/// that `status_gpu_from_nodes` may be called.
pub fn status_gpu_fits(nodes: &Vec<ParsedGpuNode>, partition: Option<&str>) -> (r: bool)
    ensures
        r == (total_gpus(select_nodes(parsed_views(nodes@), status_keep(str_opt_view(partition), false)))
            <= u32::MAX && idle_gpus(
            select_nodes(parsed_views(nodes@), status_keep(str_opt_view(partition), false)),
        ) <= u32::MAX),
{
    let ghost pv = parsed_views(nodes@);
    let ghost ka = status_keep(str_opt_view(partition), false);
    let mut total: u64 = 0;
    let mut idle: u64 = 0;
    let mut i: usize = 0;
    assert(pv.take(0) =~= Seq::<ParsedGpuNodeView>::empty());
    while i < nodes.len()
        invariant
            pv == parsed_views(nodes@),
            ka == status_keep(str_opt_view(partition), false),
            i <= nodes@.len(),
            total == total_gpus(select_nodes(pv.take(i as int), ka)),
            idle == idle_gpus(select_nodes(pv.take(i as int), ka)),
            total <= u32::MAX,
            idle <= u32::MAX,
        decreases nodes@.len() - i,
    {
        proof {
            lemma_select_step(pv, i as int, ka);
            lemma_select_prefix_sums(pv, i + 1, ka);
        }
        assert(pv[i as int] == nodes@[i as int]@);
        let node = &nodes[i];
        let keep = partition_ok(node, partition) && !node.is_drain;
        assert(ka(pv[i as int]) == keep);
        if keep {
            let ghost p = select_nodes(pv.take(i as int), ka);
            assert(p.push(pv[i as int].info).drop_last() =~= p);
            total = total + node.gpu_total as u64;
            idle = idle + node.gpu_idle as u64;
            if total > 4294967295 || idle > 4294967295 {
                return false;
            }
        }
        i += 1;
    }
    assert(pv.take(nodes@.len() as int) == pv);
    true
}

/// Whether the summary of a GPU search fits in its counters, so that
/// `find_gpu_from_nodes` may be called.
pub fn find_gpu_fits(nodes: &Vec<ParsedGpuNode>, gpu_type: Option<&str>) -> (r: bool)
    ensures
        r == find_sums_fit(parsed_views(nodes@), str_opt_view(gpu_type)),
{
    let ghost pv = parsed_views(nodes@);
    let ghost ka = find_keep(str_opt_view(gpu_type), 0);
    let ghost kb = find_keep(str_opt_view(gpu_type), 1);
    let mut total: u64 = 0;
    let mut idle: u64 = 0;
    let mut i: usize = 0;
    assert(pv.take(0) =~= Seq::<ParsedGpuNodeView>::empty());
    while i < nodes.len()
        invariant
            pv == parsed_views(nodes@),
            ka == find_keep(str_opt_view(gpu_type), 0),
            kb == find_keep(str_opt_view(gpu_type), 1),
            i <= nodes@.len(),
            total == total_gpus(select_nodes(pv.take(i as int), ka)) + total_gpus(
                select_nodes(pv.take(i as int), kb),
            ),
            idle == idle_gpus(select_nodes(pv.take(i as int), ka)) + idle_gpus(
                select_nodes(pv.take(i as int), kb),
            ),
            total <= u32::MAX,
            idle <= u32::MAX,
        decreases nodes@.len() - i,
    {
        proof {
            lemma_select_step(pv, i as int, ka);
            lemma_select_step(pv, i as int, kb);
            lemma_select_prefix_sums(pv, i + 1, ka);
            lemma_select_prefix_sums(pv, i + 1, kb);
        }
        assert(pv[i as int] == nodes@[i as int]@);
        let node = &nodes[i];
        let keep = gpu_type_ok(node, gpu_type) && !node.is_drain;
        assert((ka(pv[i as int]) || kb(pv[i as int])) == keep);
        assert(!(ka(pv[i as int]) && kb(pv[i as int])));
        if keep {
            let ghost p = select_nodes(pv.take(i as int), ka);
            let ghost q = select_nodes(pv.take(i as int), kb);
            assert(p.push(pv[i as int].info).drop_last() =~= p);
            assert(q.push(pv[i as int].info).drop_last() =~= q);
            total = total + node.gpu_total as u64;
            idle = idle + node.gpu_idle as u64;
            if total > 4294967295 || idle > 4294967295 {
                return false;
            }
        }
        i += 1;
    }
    assert(pv.take(nodes@.len() as int) == pv);
    true
}

// ---------------------------------------------------------------------------
// What holds of the GPU views
// ---------------------------------------------------------------------------

/// A GPU type as shown: not empty, and without ASCII lower-case letters.
pub open spec fn shown_type(t: Seq<char>) -> bool {
    &&& t.len() > 0
    &&& forall|i: int| 0 <= i < t.len() ==> !('a' <= #[trigger] t[i] <= 'z')
}

/// A node record is sane: it has a GPU, no more idle GPUs or CPUs than it
/// has in all, and a GPU type as shown.
pub open spec fn sane_node(n: ParsedGpuNodeView) -> bool {
    &&& n.info.gpu_total > 0
    &&& n.info.gpu_idle <= n.info.gpu_total
    &&& n.info.cpu_idle <= n.info.cpu_total
    &&& shown_type(n.info.gpu_type)
}

pub open spec fn all_sane(s: Seq<ParsedGpuNodeView>) -> bool {
    forall|i: int| 0 <= i < s.len() ==> sane_node(#[trigger] s[i])
}

proof fn lemma_flush_sane(st: ScanState)
    requires
        all_sane(st.nodes),
    ensures
        all_sane(flush(st).nodes),
{
    let f = flush(st);
    if f.nodes.len() > st.nodes.len() {
        let t = f.nodes.last().info.gpu_type;
        reveal_strlit("GPU");
        assert(shown_type(t));
        assert(f.nodes.drop_last() =~= st.nodes);
        assert forall|i: int| 0 <= i < f.nodes.len() implies sane_node(#[trigger] f.nodes[i]) by {
            if i < st.nodes.len() {
                assert(f.nodes[i] == st.nodes[i]);
            }
        }
    }
}

proof fn lemma_scan_sane(ls: Seq<Seq<char>>)
    ensures
        all_sane(scan_lines(ls).nodes),
    decreases ls.len(),
{
    if ls.len() > 0 {
        lemma_scan_sane(ls.drop_last());
        lemma_flush_sane(scan_lines(ls.drop_last()));
    }
}

/// Every node read from `scontrol show node` output has a GPU, no more idle
/// GPUs or CPUs than it has in all, and a non-empty GPU type without
/// lower-case letters.
pub proof fn law_scontrol_nodes_sane(stdout: Seq<char>)
    ensures
        all_sane(scontrol_gpu_nodes(stdout)),
{
    lemma_scan_sane(lines(stdout));
    lemma_flush_sane(scan_lines(lines(stdout)));
}

/// Splitting a selection in two by a further test loses no node and repeats none.
pub proof fn lemma_select_split_len(
    s: Seq<ParsedGpuNodeView>,
    k: spec_fn(ParsedGpuNodeView) -> bool,
    a: spec_fn(ParsedGpuNodeView) -> bool,
    b: spec_fn(ParsedGpuNodeView) -> bool,
)
    requires
        forall|n: ParsedGpuNodeView| #[trigger] k(n) <==> (a(n) || b(n)),
        forall|n: ParsedGpuNodeView| !(#[trigger] a(n) && b(n)),
    ensures
        select_nodes(s, a).len() + select_nodes(s, b).len() == select_nodes(s, k).len(),
    decreases s.len(),
{
    if s.len() > 0 {
        lemma_select_split_len(s.drop_last(), k, a, b);
        assert(k(s.last()) <==> (a(s.last()) || b(s.last())));
        assert(!(a(s.last()) && b(s.last())));
    }
}

/// The GPU status of a partition shows each of its nodes exactly once:
/// as available or as drained.
pub proof fn law_status_split(s: Seq<ParsedGpuNodeView>, partition: Option<Seq<char>>)
    ensures
        select_nodes(s, status_keep(partition, false)).len() + select_nodes(
            s,
            status_keep(partition, true),
        ).len() == select_nodes(s, |n: ParsedGpuNodeView| partition_matches(n, partition)).len(),
{
    lemma_select_split_len(
        s,
        |n: ParsedGpuNodeView| partition_matches(n, partition),
        status_keep(partition, false),
        status_keep(partition, true),
    );
}

/// A GPU search shows each node of the type exactly once: with an idle GPU,
/// without one, or drained.
pub proof fn law_find_split(s: Seq<ParsedGpuNodeView>, gpu_type: Option<Seq<char>>)
    ensures
        select_nodes(s, find_keep(gpu_type, 0)).len() + select_nodes(s, find_keep(gpu_type, 1)).len()
            + select_nodes(s, find_keep(gpu_type, 2)).len() == select_nodes(
            s,
            |n: ParsedGpuNodeView| gpu_type_matches(n, gpu_type),
        ).len(),
{
    let undrained = |n: ParsedGpuNodeView| gpu_type_matches(n, gpu_type) && !n.is_drain;
    lemma_select_split_len(s, undrained, find_keep(gpu_type, 0), find_keep(gpu_type, 1));
    lemma_select_split_len(
        s,
        |n: ParsedGpuNodeView| gpu_type_matches(n, gpu_type),
        undrained,
        find_keep(gpu_type, 2),
    );
}

// ---------------------------------------------------------------------------
// What the scan records, block by block
// ---------------------------------------------------------------------------

/// A line that starts a node's block: `NodeName=`, after trimming.
pub open spec fn node_line(l: Seq<char>) -> bool {
    strip_prefix(trim(l), "NodeName="@) is Some
}

/// The node that a `NodeName=` line names: the first word after the prefix.
pub open spec fn node_line_name(l: Seq<char>) -> Seq<char> {
    first_word(strip_prefix(trim(l), "NodeName="@)->0)
}

/// The value of the last line of `b` that starts with `key`, after trimming.
pub open spec fn last_field(b: Seq<Seq<char>>, key: Seq<char>) -> Option<Seq<char>>
    decreases b.len(),
{
    if b.len() == 0 {
        None
    } else if strip_prefix(trim(b.last()), key) is Some {
        strip_prefix(trim(b.last()), key)
    } else {
        last_field(b.drop_last(), key)
    }
}

/// Where the last block of `ls` starts: its last `NodeName=` line.
pub open spec fn block_start(ls: Seq<Seq<char>>) -> int
    decreases ls.len(),
{
    if ls.len() == 0 {
        0
    } else if node_line(ls.last()) {
        ls.len() - 1
    } else {
        block_start(ls.drop_last())
    }
}

/// What a block records of its node: name, GPU count and shown type, and the
/// block's own `State=`, `Partitions=` and `AllocTRES=` values, where it has
/// them.
pub struct GpuBlockView {
    pub node: Seq<char>,
    pub gpu_total: u32,
    pub gpu_type: Seq<char>,
    pub state: Option<Seq<char>>,
    pub partition: Option<Seq<char>>,
    pub alloc_tres: Option<Seq<char>>,
}

/// The node a block records: one exactly when its last `Gres=` line declares
/// GPUs (it mentions `gpu` and counts more than none); none otherwise.
pub open spec fn block_record(b: Seq<Seq<char>>) -> Seq<GpuBlockView> {
    match last_field(b, "Gres="@) {
        None => Seq::empty(),
        Some(g) => {
            let (total, ty) = gpu_gres_spec(g);
            if !contains_seq(lower(g), "gpu"@) || total == 0 {
                Seq::empty()
            } else {
                seq![
                    GpuBlockView {
                        node: node_line_name(b[0]),
                        gpu_total: total,
                        gpu_type: if ty.len() == 0 {
                            "GPU"@
                        } else {
                            upper(ty)
                        },
                        state: last_field(b, "State="@),
                        partition: last_field(b, "Partitions="@),
                        alloc_tres: last_field(b, "AllocTRES="@),
                    },
                ]
            }
        },
    }
}

/// The nodes the blocks of `ls` record, block after block.
pub open spec fn block_records(ls: Seq<Seq<char>>) -> Seq<GpuBlockView>
    decreases ls.len(),
{
    if ls.len() == 0 {
        Seq::empty()
    } else {
        let j = block_start(ls);
        if 0 <= j < ls.len() {
            block_records(ls.take(j)) + block_record(ls.subrange(j, ls.len() as int))
        } else {
            Seq::empty()
        }
    }
}

/// Output made of blocks: it starts with a `NodeName=` line (or is empty),
/// and every `NodeName=` line names a node.
pub open spec fn scontrol_well_formed(ls: Seq<Seq<char>>) -> bool {
    &&& (ls.len() == 0 || node_line(ls[0]))
    &&& forall|i: int| 0 <= i < ls.len() && node_line(#[trigger] ls[i]) ==> node_line_name(ls[i]).len() > 0
}

/// A read node agrees with what its block records; its drain flag follows
/// the block's `State=` value where the block has one.
pub open spec fn record_matches(n: ParsedGpuNodeView, r: GpuBlockView) -> bool {
    &&& n.info.node == r.node
    &&& n.info.gpu_total == r.gpu_total
    &&& n.info.gpu_type == r.gpu_type
    &&& (r.state matches Some(s) ==> n.is_drain == contains_seq(upper(s), "DRAIN"@))
    &&& (r.partition matches Some(p) ==> n.info.partition == p)
    &&& (r.alloc_tres matches Some(a) ==> n.info.gpu_idle == sat_sub(
        r.gpu_total,
        match opt_parse(extract_single(alloc_gpu_pattern(), a)) {
            Some(x) => x,
            None => 0,
        },
    ))
}

pub open spec fn records_match(ns: Seq<ParsedGpuNodeView>, rs: Seq<GpuBlockView>) -> bool {
    &&& ns.len() == rs.len()
    &&& forall|k: int| 0 <= k < ns.len() ==> record_matches(#[trigger] ns[k], rs[k])
}

proof fn lemma_prefixes_exclusive(t: Seq<char>)
    ensures
        strip_prefix(t, "NodeName="@) is Some ==> t.len() > 0 && t[0] == 'N',
        strip_prefix(t, "State="@) is Some ==> t.len() > 0 && t[0] == 'S',
        strip_prefix(t, "Gres="@) is Some ==> t.len() > 0 && t[0] == 'G',
        strip_prefix(t, "Partitions="@) is Some ==> t.len() > 0 && t[0] == 'P',
        strip_prefix(t, "AllocTRES="@) is Some ==> t.len() > 0 && t[0] == 'A',
{
    reveal_strlit("NodeName=");
    reveal_strlit("Gres=");
    reveal_strlit("State=");
    reveal_strlit("Partitions=");
    reveal_strlit("AllocTRES=");
    if has_prefix(t, "NodeName="@) {
        assert(t.take(9)[0] == t[0]);
    }
    if has_prefix(t, "State="@) {
        assert(t.take(6)[0] == t[0]);
    }
    if has_prefix(t, "Gres="@) {
        assert(t.take(5)[0] == t[0]);
    }
    if has_prefix(t, "Partitions="@) {
        assert(t.take(11)[0] == t[0]);
    }
    if has_prefix(t, "AllocTRES="@) {
        assert(t.take(10)[0] == t[0]);
    }
}

proof fn lemma_flush_block(st: ScanState, b: Seq<Seq<char>>, rs: Seq<GpuBlockView>)
    requires
        b.len() > 0,
        records_match(st.nodes, rs),
        st.node == Some(node_line_name(b[0])),
        st.gres == last_field(b, "Gres="@),
        last_field(b, "State="@) is Some ==> st.state == last_field(b, "State="@),
        last_field(b, "Partitions="@) is Some ==> st.partition == last_field(b, "Partitions="@),
        last_field(b, "AllocTRES="@) is Some ==> st.alloc_tres == last_field(b, "AllocTRES="@),
    ensures
        records_match(flush(st).nodes, rs + block_record(b)),
        flush(st).gres is None,
{
    let f = flush(st);
    if f.nodes.len() > st.nodes.len() {
        let g = st.gres->0;
        let r = block_record(b);
        assert(r.len() == 1);
        assert(f.nodes.drop_last() =~= st.nodes);
        let all = rs + r;
        assert forall|k: int| 0 <= k < f.nodes.len() implies record_matches(#[trigger] f.nodes[k], all[k]) by {
            if k < st.nodes.len() {
                assert(f.nodes[k] == st.nodes[k]);
                assert(all[k] == rs[k]);
            } else {
                assert(all[k] == r[0]);
            }
        }
    } else {
        assert(block_record(b) =~= Seq::<GpuBlockView>::empty());
        assert(rs + block_record(b) =~= rs);
    }
}

proof fn lemma_scan_blocks(ls: Seq<Seq<char>>)
    requires
        ls.len() > 0,
        scontrol_well_formed(ls),
    ensures
        0 <= block_start(ls) < ls.len(),
        node_line(ls[block_start(ls)]),
        records_match(scan_lines(ls).nodes, block_records(ls.take(block_start(ls)))),
        scan_lines(ls).node == Some(node_line_name(ls[block_start(ls)])),
        scan_lines(ls).gres == last_field(ls.subrange(block_start(ls), ls.len() as int), "Gres="@),
        last_field(ls.subrange(block_start(ls), ls.len() as int), "State="@) is Some ==> scan_lines(ls).state
            == last_field(ls.subrange(block_start(ls), ls.len() as int), "State="@),
        last_field(ls.subrange(block_start(ls), ls.len() as int), "Partitions="@) is Some ==> scan_lines(ls).partition
            == last_field(ls.subrange(block_start(ls), ls.len() as int), "Partitions="@),
        last_field(ls.subrange(block_start(ls), ls.len() as int), "AllocTRES="@) is Some ==> scan_lines(ls).alloc_tres
            == last_field(ls.subrange(block_start(ls), ls.len() as int), "AllocTRES="@),
    decreases ls.len(),
{
    let p = ls.drop_last();
    let l = ls.last();
    let n = ls.len();
    assert(ls[n - 1] == l);
    lemma_prefixes_exclusive(trim(l));
    let one = ls.subrange(n - 1, n as int);
    assert(one.drop_last() =~= Seq::<Seq<char>>::empty());
    assert(one.last() == l);
    if node_line(l) {
        assert(node_line(ls[n - 1]));
        assert(last_field(one.drop_last(), "Gres="@) is None);
        assert(last_field(one.drop_last(), "State="@) is None);
        assert(last_field(one.drop_last(), "Partitions="@) is None);
        assert(last_field(one.drop_last(), "AllocTRES="@) is None);
        assert(last_field(one, "Partitions="@) is None);
        assert(last_field(one, "AllocTRES="@) is None);
        assert(last_field(one, "Gres="@) is None);
        assert(last_field(one, "State="@) is None);
    }
    if n == 1 {
        assert(node_line(l));
        assert(ls.take(0) =~= Seq::<Seq<char>>::empty());
        assert(block_records(Seq::<Seq<char>>::empty()) =~= Seq::<GpuBlockView>::empty());
    } else {
        assert(p[0] == ls[0]);
        assert forall|i: int| 0 <= i < p.len() && node_line(#[trigger] p[i]) implies node_line_name(p[i]).len() > 0 by {
            assert(p[i] == ls[i]);
        }
        lemma_scan_blocks(p);
        let j = block_start(p);
        let st = scan_lines(p);
        let b = p.subrange(j, p.len() as int);
        assert(b[0] == p[j]);
        if node_line(l) {
            assert(block_start(ls) == n - 1);
            assert(ls.take(n - 1) =~= p);
            lemma_flush_block(st, b, block_records(p.take(j)));
            assert(block_records(p) == block_records(p.take(j)) + block_record(b));
            assert(scan_lines(ls) == scan_line(st, l));
        } else {
            assert(block_start(ls) == j);
            assert(ls.take(j) =~= p.take(j));
            let b2 = ls.subrange(j, n as int);
            assert(b2.drop_last() =~= b);
            assert(b2.last() == l);
            assert(b2[0] == b[0]);
            assert(ls[j] == p[j]);
            assert(scan_lines(ls) == scan_line(st, l));
        }
    }
}

/// Where the output is made of blocks (each `NodeName=` line naming a node,
/// and nothing before the first), the nodes read are, in order, those whose
/// block's last `Gres=` line declares GPUs, each with its block's name, GPU
/// count and shown type; where its block has them, the node is drained
/// exactly when the last `State=` value says `DRAIN` in any case, lies in the
/// partition of the last `Partitions=` line, and has as idle the GPUs that the
/// last `AllocTRES=` line's `gres/gpu=` count leaves of its total. Blocks
/// without such a `Gres=` line are skipped.
pub proof fn law_scontrol_blocks(stdout: Seq<char>)
    requires
        scontrol_well_formed(lines(stdout)),
    ensures
        records_match(scontrol_gpu_nodes(stdout), block_records(lines(stdout))),
{
    let ls = lines(stdout);
    if ls.len() == 0 {
        assert(flush(scan_init()) == scan_init());
    } else {
        lemma_scan_blocks(ls);
        let j = block_start(ls);
        let b = ls.subrange(j, ls.len() as int);
        assert(b[0] == ls[j]);
        lemma_flush_block(scan_lines(ls), b, block_records(ls.take(j)));
    }
}

} // verus!
