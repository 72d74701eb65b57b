//! The rules of the connection and session store: ids, stored names,
//! normalized values, request checks, and the summary of active sessions.
use vstd::prelude::*;
use crate::error::SlurmError;
use crate::order::{chars_lt, lemma_lt_asymmetric, lemma_lt_irreflexive, lemma_lt_total, lemma_lt_transitive, locate, seq_lt, strictly_sorted};
use crate::proto::{ConnectionAddRequest, ConnectionKind, ConnectionRecord, SessionConnectionSummary, SessionNodeRole, SessionRecord, SessionState, SessionSummaryData, SessionUpsertRequest};
use crate::text::{ascii_lower_char, chars_eq_str, chars_of, is_ascii_alnum, is_ascii_alnum_char, lower, opt_view, string_of, to_ascii_lower, trim, trim_chars, views};

verus! {

// ---------------------------------------------------------------------------
// Connection ids
// ---------------------------------------------------------------------------

/// The slug of a label read so far, and whether it ends in a separator: ASCII
/// letters (lower-cased) and digits are kept, and each run of other
/// characters becomes one `_`.
pub open spec fn slug_state(s: Seq<char>) -> (Seq<char>, bool)
    decreases s.len(),
{
    if s.len() == 0 {
        (Seq::empty(), false)
    } else {
        let (o, dash) = slug_state(s.drop_last());
        let c = to_ascii_lower(s.last());
        if is_ascii_alnum(c) {
            (o.push(c), false)
        } else if !dash {
            (o.push('_'), true)
        } else {
            (o, dash)
        }
    }
}

/// `s` without leading `_`.
pub open spec fn strip_leading_underscores(s: Seq<char>) -> Seq<char>
    decreases s.len(),
{
    if s.len() > 0 && s[0] == '_' {
        strip_leading_underscores(s.drop_first())
    } else {
        s
    }
}

/// `s` without trailing `_`.
pub open spec fn strip_trailing_underscores(s: Seq<char>) -> Seq<char>
    decreases s.len(),
{
    if s.len() > 0 && s.last() == '_' {
        strip_trailing_underscores(s.drop_last())
    } else {
        s
    }
}

/// The slug of a label, without leading and trailing `_`.
pub open spec fn label_slug(label: Seq<char>) -> Seq<char> {
    strip_trailing_underscores(strip_leading_underscores(slug_state(label).0))
}

/// The id of the connection with this label: `conn_` followed by its slug,
/// or `conn_default` when the slug is empty.
pub open spec fn connection_id_spec(label: Seq<char>) -> Seq<char> {
    let t = label_slug(label);
    if t.len() == 0 {
        "conn_default"@
    } else {
        "conn_"@ + t
    }
}

/// The id of the connection with this label, e.g. `gzu-cluster` gives
/// `conn_gzu_cluster`.
pub fn connection_id_for_label(label: &str) -> (r: String)
    ensures
        r@ == connection_id_spec(label@),
{
    let cs = chars_of(label);
    let mut out: Vec<char> = Vec::new();
    let mut last_dash = false;
    let mut i: usize = 0;
    assert(cs@.take(0) =~= Seq::<char>::empty());
    while i < cs.len()
        invariant
            i <= cs@.len(),
            (out@, last_dash) == slug_state(cs@.take(i as int)),
        decreases cs@.len() - i,
    {
        assert(cs@.take(i + 1).drop_last() =~= cs@.take(i as int));
        assert(cs@.take(i + 1).last() == cs@[i as int]);
        let c = ascii_lower_char(cs[i]);
        if is_ascii_alnum_char(c) {
            out.push(c);
            last_dash = false;
        } else if !last_dash {
            out.push('_');
            last_dash = true;
        }
        i += 1;
    }
    assert(cs@.take(cs@.len() as int) == cs@);
    let n = out.len();
    let mut lo: usize = 0;
    assert(out@.skip(0) == out@);
    while lo < n && out[lo] == '_'
        invariant
            n == out@.len(),
            lo <= n,
            strip_leading_underscores(out@) == strip_leading_underscores(out@.skip(lo as int)),
        decreases n - lo,
    {
        assert(out@.skip(lo as int).drop_first() == out@.skip(lo + 1));
        lo += 1;
    }
    assert(strip_leading_underscores(out@) == out@.subrange(lo as int, n as int));
    let mut hi: usize = n;
    while hi > lo && out[hi - 1] == '_'
        invariant
            n == out@.len(),
            lo <= hi <= n,
            label_slug(label@) == strip_trailing_underscores(out@.subrange(lo as int, hi as int)),
        decreases hi,
    {
        assert(out@.subrange(lo as int, hi as int).drop_last() == out@.subrange(lo as int, hi - 1));
        hi -= 1;
    }
    let mut id = chars_of("conn_");
    if hi == lo {
        let d = chars_of("conn_default");
        return string_of(d.as_slice());
    }
    let mut k: usize = lo;
    while k < hi
        invariant
            lo <= k <= hi <= n,
            n == out@.len(),
            id@ == "conn_"@ + out@.subrange(lo as int, k as int),
        decreases hi - k,
    {
        id.push(out[k]);
        k += 1;
        assert(out@.subrange(lo as int, k as int) == out@.subrange(lo as int, k - 1).push(
            out@[k - 1],
        ));
    }
    string_of(id.as_slice())
}

/// Labels that differ only in ASCII case have the same connection id.
pub proof fn law_connection_id_ignores_ascii_case(a: Seq<char>, b: Seq<char>)
    requires
        lower(a) == lower(b),
    ensures
        connection_id_spec(a) == connection_id_spec(b),
{
    lemma_slug_of_lower(a);
    lemma_slug_of_lower(b);
}

proof fn lemma_slug_of_lower(s: Seq<char>)
    ensures
        slug_state(s) == slug_state(lower(s)),
    decreases s.len(),
{
    if s.len() > 0 {
        lemma_slug_of_lower(s.drop_last());
        assert(lower(s).drop_last() =~= lower(s.drop_last()));
        assert(lower(s).last() == to_ascii_lower(s.last()));
        let c = s.last();
        assert(to_ascii_lower(to_ascii_lower(c)) == to_ascii_lower(c));
    }
}

/// Every connection id starts with `conn_` and continues with ASCII
/// lower-case letters, digits and `_`.
pub proof fn law_connection_id_shape(label: Seq<char>)
    ensures
        connection_id_spec(label).len() > 5,
        connection_id_spec(label).take(5) == "conn_"@,
        forall|i: int|
            5 <= i < connection_id_spec(label).len() ==> {
                let c = #[trigger] connection_id_spec(label)[i];
                ||| 'a' <= c <= 'z'
                ||| '0' <= c <= '9'
                ||| c == '_'
            },
{
    reveal_strlit("conn_default");
    reveal_strlit("conn_");
    lemma_slug_chars(label);
    let o = slug_state(label).0;
    lemma_strip_leading_sub(o);
    let t1 = strip_leading_underscores(o);
    lemma_strip_trailing_sub(t1);
    let t = label_slug(label);
    if t.len() > 0 {
        assert(("conn_"@ + t).take(5) =~= "conn_"@);
        assert forall|i: int| 5 <= i < ("conn_"@ + t).len() implies {
            let c = #[trigger] ("conn_"@ + t)[i];
            ||| 'a' <= c <= 'z'
            ||| '0' <= c <= '9'
            ||| c == '_'
        } by {
            assert(("conn_"@ + t)[i] == t[i - 5]);
        }
    } else {
        assert("conn_default"@.take(5) =~= "conn_"@);
    }
}

pub open spec fn slug_char(c: char) -> bool {
    ||| 'a' <= c <= 'z'
    ||| '0' <= c <= '9'
    ||| c == '_'
}

proof fn lemma_lower_not_upper(c: char)
    ensures
        !('A' <= to_ascii_lower(c) <= 'Z'),
{
    if 'A' <= c <= 'Z' {
        assert('a' <= ((c as u32) + 32) as char <= 'z');
    }
}

proof fn lemma_slug_chars(s: Seq<char>)
    ensures
        forall|i: int| 0 <= i < slug_state(s).0.len() ==> slug_char(#[trigger] slug_state(s).0[i]),
    decreases s.len(),
{
    if s.len() > 0 {
        lemma_slug_chars(s.drop_last());
        lemma_lower_not_upper(s.last());
        let (o, dash) = slug_state(s.drop_last());
        let c = to_ascii_lower(s.last());
        if is_ascii_alnum(c) {
            assert(slug_char(c));
            assert forall|i: int| 0 <= i < o.push(c).len() implies slug_char(#[trigger] o.push(c)[i]) by {
                if i < o.len() {
                    assert(o.push(c)[i] == o[i]);
                }
            }
        } else if !dash {
            assert forall|i: int| 0 <= i < o.push('_').len() implies slug_char(#[trigger] o.push('_')[i]) by {
                if i < o.len() {
                    assert(o.push('_')[i] == o[i]);
                }
            }
        }
    }
}

proof fn lemma_strip_leading_sub(s: Seq<char>)
    ensures
        forall|i: int|
            0 <= i < strip_leading_underscores(s).len() ==> exists|j: int|
                0 <= j < s.len() && s[j] == #[trigger] strip_leading_underscores(s)[i],
    decreases s.len(),
{
    if s.len() > 0 && s[0] == '_' {
        lemma_strip_leading_sub(s.drop_first());
        assert forall|i: int| 0 <= i < strip_leading_underscores(s).len() implies exists|j: int|
            0 <= j < s.len() && s[j] == #[trigger] strip_leading_underscores(s)[i] by {
            let j = choose|j: int|
                0 <= j < s.drop_first().len() && s.drop_first()[j]
                    == strip_leading_underscores(s.drop_first())[i];
            assert(s[j + 1] == s.drop_first()[j]);
        }
    } else {
        assert forall|i: int| 0 <= i < strip_leading_underscores(s).len() implies exists|j: int|
            0 <= j < s.len() && s[j] == #[trigger] strip_leading_underscores(s)[i] by {
            assert(s[i] == strip_leading_underscores(s)[i]);
        }
    }
}

proof fn lemma_strip_trailing_sub(s: Seq<char>)
    ensures
        forall|i: int|
            0 <= i < strip_trailing_underscores(s).len() ==> #[trigger] strip_trailing_underscores(
                s,
            )[i] == s[i],
        strip_trailing_underscores(s).len() <= s.len(),
    decreases s.len(),
{
    if s.len() > 0 && s.last() == '_' {
        lemma_strip_trailing_sub(s.drop_last());
    }
}

// ---------------------------------------------------------------------------
// Stored names of kinds, states and roles
// ---------------------------------------------------------------------------

pub open spec fn connection_kind_name(kind: ConnectionKind) -> Seq<char> {
    match kind {
        ConnectionKind::Local => "local"@,
        ConnectionKind::Cluster => "cluster"@,
        ConnectionKind::Instance => "instance"@,
        ConnectionKind::Server => "server"@,
        ConnectionKind::ResourceNode => "resource_node"@,
    }
}

/// The name under which a connection kind is stored.
pub fn connection_kind_as_str(kind: &ConnectionKind) -> (r: &'static str)
    ensures
        r@ == connection_kind_name(*kind),
{
    match kind {
        ConnectionKind::Local => "local",
        ConnectionKind::Cluster => "cluster",
        ConnectionKind::Instance => "instance",
        ConnectionKind::Server => "server",
        ConnectionKind::ResourceNode => "resource_node",
    }
}

proof fn lemma_kind_names_distinct()
    ensures
        "server"@ != "local"@,
        "server"@ != "cluster"@,
        "server"@ != "instance"@,
        "server"@ != "resource_node"@,
        "cluster"@ != "local"@,
        "instance"@ != "local"@,
        "instance"@ != "cluster"@,
        "resource_node"@ != "local"@,
        "resource_node"@ != "cluster"@,
        "resource_node"@ != "instance"@,
{
    reveal_strlit("local");
    reveal_strlit("cluster");
    reveal_strlit("instance");
    reveal_strlit("server");
    reveal_strlit("resource_node");
    assert("server"@.len() != "local"@.len());
    assert("server"@.len() != "cluster"@.len());
    assert("server"@.len() != "instance"@.len());
    assert("server"@.len() != "resource_node"@.len());
    assert("cluster"@.len() != "local"@.len());
    assert("instance"@.len() != "local"@.len());
    assert("instance"@.len() != "cluster"@.len());
    assert("resource_node"@.len() != "local"@.len());
    assert("resource_node"@.len() != "cluster"@.len());
    assert("resource_node"@.len() != "instance"@.len());
}

pub open spec fn parse_connection_kind_spec(value: Seq<char>) -> ConnectionKind {
    if value == "local"@ {
        ConnectionKind::Local
    } else if value == "cluster"@ {
        ConnectionKind::Cluster
    } else if value == "instance"@ {
        ConnectionKind::Instance
    } else if value == "resource_node"@ {
        ConnectionKind::ResourceNode
    } else {
        ConnectionKind::Server
    }
}

/// The connection kind stored under `value`; an unknown name reads as `Server`.
pub fn parse_connection_kind(value: &str) -> (r: ConnectionKind)
    ensures
        r == parse_connection_kind_spec(value@),
{
    proof {
        lemma_kind_names_distinct();
    }
    let v = chars_of(value);
    if chars_eq_str(v.as_slice(), "local") {
        ConnectionKind::Local
    } else if chars_eq_str(v.as_slice(), "cluster") {
        ConnectionKind::Cluster
    } else if chars_eq_str(v.as_slice(), "instance") {
        ConnectionKind::Instance
    } else if chars_eq_str(v.as_slice(), "server") {
        ConnectionKind::Server
    } else if chars_eq_str(v.as_slice(), "resource_node") {
        ConnectionKind::ResourceNode
    } else {
        ConnectionKind::Server
    }
}

/// A stored connection kind reads back as itself.
pub proof fn law_connection_kind_roundtrip(kind: ConnectionKind)
    ensures
        parse_connection_kind_spec(connection_kind_name(kind)) == kind,
{
    lemma_kind_names_distinct();
}

pub open spec fn session_state_name(state: SessionState) -> Seq<char> {
    match state {
        SessionState::Active => "active"@,
        SessionState::Idle => "idle"@,
        SessionState::Closed => "closed"@,
    }
}

/// The name under which a session state is stored.
pub fn session_state_as_str(state: &SessionState) -> (r: &'static str)
    ensures
        r@ == session_state_name(*state),
{
    match state {
        SessionState::Active => "active",
        SessionState::Idle => "idle",
        SessionState::Closed => "closed",
    }
}

proof fn lemma_state_names_distinct()
    ensures
        "idle"@ != "active"@,
        "idle"@ != "closed"@,
        "closed"@ != "active"@,
{
    reveal_strlit("active");
    reveal_strlit("idle");
    reveal_strlit("closed");
    assert("idle"@.len() != "active"@.len());
    assert("idle"@.len() != "closed"@.len());
    assert("closed"@[0] != "active"@[0]);
}

pub open spec fn parse_session_state_spec(value: Seq<char>) -> SessionState {
    if value == "active"@ {
        SessionState::Active
    } else if value == "closed"@ {
        SessionState::Closed
    } else {
        SessionState::Idle
    }
}

/// The session state stored under `value`; an unknown name reads as `Idle`.
pub fn parse_session_state(value: &str) -> (r: SessionState)
    ensures
        r == parse_session_state_spec(value@),
{
    proof {
        lemma_state_names_distinct();
    }
    let v = chars_of(value);
    if chars_eq_str(v.as_slice(), "active") {
        SessionState::Active
    } else if chars_eq_str(v.as_slice(), "idle") {
        SessionState::Idle
    } else if chars_eq_str(v.as_slice(), "closed") {
        SessionState::Closed
    } else {
        SessionState::Idle
    }
}

/// A stored session state reads back as itself.
pub proof fn law_session_state_roundtrip(state: SessionState)
    ensures
        parse_session_state_spec(session_state_name(state)) == state,
{
    lemma_state_names_distinct();
}

pub open spec fn session_node_role_name(role: SessionNodeRole) -> Seq<char> {
    match role {
        SessionNodeRole::Login => "login"@,
        SessionNodeRole::Compute => "compute"@,
        SessionNodeRole::Unknown => "unknown"@,
    }
}

/// The name under which a session node role is stored.
pub fn session_node_role_as_str(role: &SessionNodeRole) -> (r: &'static str)
    ensures
        r@ == session_node_role_name(*role),
{
    match role {
        SessionNodeRole::Login => "login",
        SessionNodeRole::Compute => "compute",
        SessionNodeRole::Unknown => "unknown",
    }
}

pub open spec fn parse_session_node_role_spec(value: Seq<char>) -> SessionNodeRole {
    if value == "login"@ {
        SessionNodeRole::Login
    } else if value == "compute"@ {
        SessionNodeRole::Compute
    } else {
        SessionNodeRole::Unknown
    }
}

/// The node role stored under `value`; an unknown name reads as `Unknown`.
pub fn parse_session_node_role(value: &str) -> (r: SessionNodeRole)
    ensures
        r == parse_session_node_role_spec(value@),
{
    let v = chars_of(value);
    if chars_eq_str(v.as_slice(), "login") {
        SessionNodeRole::Login
    } else if chars_eq_str(v.as_slice(), "compute") {
        SessionNodeRole::Compute
    } else if chars_eq_str(v.as_slice(), "unknown") {
        SessionNodeRole::Unknown
    } else {
        SessionNodeRole::Unknown
    }
}

/// A stored node role reads back as itself.
pub proof fn law_session_node_role_roundtrip(role: SessionNodeRole)
    ensures
        parse_session_node_role_spec(session_node_role_name(role)) == role,
{
    reveal_strlit("login");
    reveal_strlit("compute");
    reveal_strlit("unknown");
    assert("unknown"@.len() != "login"@.len());
    assert("unknown"@[0] != "compute"@[0]);
    assert("compute"@.len() != "login"@.len());
}

// ---------------------------------------------------------------------------
// Normalized values and request checks
// ---------------------------------------------------------------------------

pub open spec fn clamp_keepalive(secs: u64) -> u64 {
    if secs < 60 {
        60
    } else if secs > 86_400 {
        86_400
    } else {
        secs
    }
}

/// A keep-alive interval limited to between one minute and one day.
pub fn normalize_keepalive_secs(value: Option<u64>) -> (r: Option<u64>)
    ensures
        r == match value {
            Some(s) => Some(clamp_keepalive(s)),
            None => None::<u64>,
        },
        r matches Some(s) ==> 60 <= s <= 86_400,
{
    match value {
        Some(secs) => Some(
            if secs < 60 {
                60
            } else if secs > 86_400 {
                86_400
            } else {
                secs
            },
        ),
        None => None,
    }
}

/// Normalizing a keep-alive interval twice changes nothing more.
pub proof fn law_keepalive_idempotent(secs: u64)
    ensures
        clamp_keepalive(clamp_keepalive(secs)) == clamp_keepalive(secs),
{
}

/// A session description without surrounding whitespace: nothing when it is
/// blank, an error when longer than 256 characters.
pub fn normalize_description(value: Option<String>) -> (r: Result<Option<String>, SlurmError>)
    ensures
        match value {
            None => r == Ok::<Option<String>, SlurmError>(None),
            Some(raw) => {
                let t = trim(raw@);
                if t.len() == 0 {
                    r == Ok::<Option<String>, SlurmError>(None)
                } else if t.len() > 256 {
                    r == Err::<Option<String>, SlurmError>(SlurmError::DescriptionTooLong)
                } else {
                    r matches Ok(Some(d)) && d@ == t
                }
            },
        },
{
    match value {
        None => Ok(None),
        Some(raw) => {
            let cs = chars_of(raw.as_str());
            let t = trim_chars(cs.as_slice());
            if t.len() == 0 {
                Ok(None)
            } else if t.len() > 256 {
                Err(SlurmError::DescriptionTooLong)
            } else {
                Ok(Some(string_of(t.as_slice())))
            }
        },
    }
}

pub open spec fn blank_opt(o: Option<String>) -> bool {
    match o {
        Some(s) => s@.len() == 0,
        None => true,
    }
}

fn is_blank_opt(o: &Option<String>) -> (r: bool)
    ensures
        r == blank_opt(*o),
{
    match o {
        Some(s) => {
            let cs = chars_of(s.as_str());
            cs.len() == 0
        },
        None => true,
    }
}

/// What a connection is stored with, computed from the request: its id and
/// normalized keep-alive. A `resource_node` connection needs a host, a user
/// and a jump host (checked in that order).
pub fn prepare_connection_add(request: &ConnectionAddRequest) -> (r: Result<
    (String, Option<u64>),
    SlurmError,
>)
    ensures
        match r {
            Ok((id, keepalive)) => {
                &&& id@ == connection_id_spec(request.label@)
                &&& keepalive == match request.default_keepalive_secs {
                    Some(s) => Some(clamp_keepalive(s)),
                    None => None::<u64>,
                }
                &&& request.kind == ConnectionKind::ResourceNode ==> !blank_opt(request.host)
                    && !blank_opt(request.username) && !blank_opt(request.jump_host)
            },
            Err(e) => {
                &&& request.kind == ConnectionKind::ResourceNode
                &&& blank_opt(request.host) ==> e == SlurmError::ResourceNodeMissingHost
                &&& !blank_opt(request.host) && blank_opt(request.username) ==> e
                    == SlurmError::ResourceNodeMissingUser
                &&& !blank_opt(request.host) && !blank_opt(request.username) ==> e
                    == SlurmError::ResourceNodeMissingJumpHost && blank_opt(request.jump_host)
            },
        },
{
    let connection_id = connection_id_for_label(request.label.as_str());
    let keepalive = normalize_keepalive_secs(request.default_keepalive_secs);
    if request.kind == ConnectionKind::ResourceNode {
        if is_blank_opt(&request.host) {
            return Err(SlurmError::ResourceNodeMissingHost);
        }
        if is_blank_opt(&request.username) {
            return Err(SlurmError::ResourceNodeMissingUser);
        }
        if is_blank_opt(&request.jump_host) {
            return Err(SlurmError::ResourceNodeMissingJumpHost);
        }
    }
    Ok((connection_id, keepalive))
}

/// A session upsert needs a non-blank id and type (checked in that order).
pub fn check_session_request(request: &SessionUpsertRequest) -> (r: Result<(), SlurmError>)
    ensures
        trim(request.id@).len() == 0 ==> r == Err::<(), SlurmError>(SlurmError::EmptySessionId),
        trim(request.id@).len() > 0 && trim(request.session_type@).len() == 0 ==> r == Err::<
            (),
            SlurmError,
        >(SlurmError::EmptySessionType),
        trim(request.id@).len() > 0 && trim(request.session_type@).len() > 0 ==> r is Ok,
{
    let id = chars_of(request.id.as_str());
    let t = trim_chars(id.as_slice());
    if t.len() == 0 {
        return Err(SlurmError::EmptySessionId);
    }
    let ty = chars_of(request.session_type.as_str());
    let tt = trim_chars(ty.as_slice());
    if tt.len() == 0 {
        return Err(SlurmError::EmptySessionType);
    }
    Ok(())
}


// ---------------------------------------------------------------------------
// The summary of active sessions
// ---------------------------------------------------------------------------

/// What a session record holds.
pub struct SessionView {
    pub id: Seq<char>,
    pub connection_id: Seq<char>,
    pub session_type: Seq<char>,
    pub description: Option<Seq<char>>,
    pub state: SessionState,
    pub node_role: SessionNodeRole,
    pub remote_host: Option<Seq<char>>,
    pub compute_node: Option<Seq<char>>,
    pub keepalive_secs: Option<u64>,
    pub created_at: Seq<char>,
    pub last_seen_at: Seq<char>,
}

impl View for SessionRecord {
    type V = SessionView;

    open spec fn view(&self) -> SessionView {
        SessionView {
            id: self.id@,
            connection_id: self.connection_id@,
            session_type: self.session_type@,
            description: opt_view(self.description),
            state: self.state,
            node_role: self.node_role,
            remote_host: opt_view(self.remote_host),
            compute_node: opt_view(self.compute_node),
            keepalive_secs: self.keepalive_secs,
            created_at: self.created_at@,
            last_seen_at: self.last_seen_at@,
        }
    }
}

/// What the summary of one connection holds.
pub struct SummaryView {
    pub connection_id: Seq<char>,
    pub active_count: u32,
    pub current_session_id: Option<Seq<char>>,
    pub current_description: Option<Seq<char>>,
    pub current_node_role: Option<SessionNodeRole>,
    pub current_compute_node: Option<Seq<char>>,
    pub current_keepalive_secs: Option<u64>,
    pub last_seen_at: Option<Seq<char>>,
}

impl View for SessionConnectionSummary {
    type V = SummaryView;

    open spec fn view(&self) -> SummaryView {
        SummaryView {
            connection_id: self.connection_id@,
            active_count: self.active_count,
            current_session_id: opt_view(self.current_session_id),
            current_description: opt_view(self.current_description),
            current_node_role: self.current_node_role,
            current_compute_node: opt_view(self.current_compute_node),
            current_keepalive_secs: self.current_keepalive_secs,
            last_seen_at: opt_view(self.last_seen_at),
        }
    }
}

pub open spec fn session_views(s: Seq<SessionRecord>) -> Seq<SessionView> {
    s.map_values(|x: SessionRecord| x@)
}

pub open spec fn summary_views(s: Seq<SessionConnectionSummary>) -> Seq<SummaryView> {
    s.map_values(|x: SessionConnectionSummary| x@)
}

/// The summary of a connection before any active session is counted.
pub open spec fn fresh_summary(c: Seq<char>) -> SummaryView {
    SummaryView {
        connection_id: c,
        active_count: 0,
        current_session_id: None,
        current_description: None,
        current_node_role: None,
        current_compute_node: None,
        current_keepalive_secs: None,
        last_seen_at: None,
    }
}

/// A summary after counting one more active session, which becomes the
/// current one when it was seen later than the current one (or there is none).
pub open spec fn add_to_summary(e: SummaryView, s: SessionView) -> SummaryView {
    let counted = SummaryView { active_count: (e.active_count + 1) as u32, ..e };
    if e.last_seen_at is None || seq_lt(e.last_seen_at->0, s.last_seen_at) {
        SummaryView {
            current_session_id: Some(s.id),
            current_description: s.description,
            current_node_role: Some(s.node_role),
            current_compute_node: s.compute_node,
            current_keepalive_secs: s.keepalive_secs,
            last_seen_at: Some(s.last_seen_at),
            ..counted
        }
    } else {
        counted
    }
}

/// The summary of each connection with active sessions, after reading the
/// sessions in order.
pub open spec fn summary_map(ss: Seq<SessionView>) -> Map<Seq<char>, SummaryView>
    decreases ss.len(),
{
    if ss.len() == 0 {
        Map::empty()
    } else {
        let m = summary_map(ss.drop_last());
        let s = ss.last();
        if s.state != SessionState::Active {
            m
        } else {
            let e = if m.contains_key(s.connection_id) {
                m[s.connection_id]
            } else {
                fresh_summary(s.connection_id)
            };
            m.insert(s.connection_id, add_to_summary(e, s))
        }
    }
}

/// The number of active sessions.
pub open spec fn count_active(ss: Seq<SessionView>) -> nat
    decreases ss.len(),
{
    if ss.len() == 0 {
        0
    } else {
        count_active(ss.drop_last()) + if ss.last().state == SessionState::Active {
            1nat
        } else {
            0nat
        }
    }
}

proof fn lemma_count_active_prefix(ss: Seq<SessionView>, k: int)
    requires
        0 <= k <= ss.len(),
    ensures
        count_active(ss.take(k)) <= count_active(ss),
    decreases ss.len() - k,
{
    if k < ss.len() {
        assert(ss.take(k + 1).drop_last() =~= ss.take(k));
        lemma_count_active_prefix(ss, k + 1);
    } else {
        assert(ss.take(k) == ss);
    }
}

/// The number of active sessions among `sessions`.
pub fn count_active_sessions(sessions: &Vec<SessionRecord>) -> (r: u64)
    ensures
        r == count_active(session_views(sessions@)),
{
    let ghost ss = session_views(sessions@);
    let mut n: u64 = 0;
    let mut i: usize = 0;
    assert(ss.take(0) =~= Seq::<SessionView>::empty());
    while i < sessions.len()
        invariant
            ss == session_views(sessions@),
            i <= sessions@.len(),
            n == count_active(ss.take(i as int)),
            n <= i,
        decreases sessions@.len() - i,
    {
        assert(ss.take(i + 1).drop_last() =~= ss.take(i as int));
        assert(ss.take(i + 1).last() == sessions@[i as int]@);
        if sessions[i].state == SessionState::Active {
            n = n + 1;
        }
        i += 1;
    }
    assert(ss.take(sessions@.len() as int) == ss);
    n
}

fn clone_opt(o: &Option<String>) -> (r: Option<String>)
    ensures
        opt_view(r) == opt_view(*o),
{
    match o {
        Some(s) => Some(s.clone()),
        None => None,
    }
}

fn fresh_entry(c: &String) -> (r: SessionConnectionSummary)
    ensures
        r@ == fresh_summary(c@),
{
    SessionConnectionSummary {
        connection_id: c.clone(),
        active_count: 0,
        current_session_id: None,
        current_description: None,
        current_node_role: None,
        current_compute_node: None,
        current_keepalive_secs: None,
        last_seen_at: None,
    }
}

fn add_session(e: &SessionConnectionSummary, s: &SessionRecord) -> (r: SessionConnectionSummary)
    requires
        e.active_count < u32::MAX,
    ensures
        r@ == add_to_summary(e@, s@),
{
    let newer = match &e.last_seen_at {
        None => true,
        Some(last) => {
            let a = chars_of(last.as_str());
            let b = chars_of(s.last_seen_at.as_str());
            chars_lt(a.as_slice(), b.as_slice())
        },
    };
    if newer {
        SessionConnectionSummary {
            connection_id: e.connection_id.clone(),
            active_count: e.active_count + 1,
            current_session_id: Some(s.id.clone()),
            current_description: clone_opt(&s.description),
            current_node_role: Some(s.node_role),
            current_compute_node: clone_opt(&s.compute_node),
            current_keepalive_secs: s.keepalive_secs,
            last_seen_at: Some(s.last_seen_at.clone()),
        }
    } else {
        SessionConnectionSummary {
            connection_id: e.connection_id.clone(),
            active_count: e.active_count + 1,
            current_session_id: clone_opt(&e.current_session_id),
            current_description: clone_opt(&e.current_description),
            current_node_role: e.current_node_role,
            current_compute_node: clone_opt(&e.current_compute_node),
            current_keepalive_secs: e.current_keepalive_secs,
            last_seen_at: clone_opt(&e.last_seen_at),
        }
    }
}

/// Each key has its summary at the same position.
pub open spec fn entries_match(
    m: Map<Seq<char>, SummaryView>,
    keys: Seq<Seq<char>>,
    ents: Seq<SummaryView>,
) -> bool {
    &&& keys.len() == ents.len()
    &&& forall|j: int|
        0 <= j < keys.len() ==> m.contains_key(#[trigger] keys[j]) && m[keys[j]] == ents[j]
}

/// The ids of summaries.
pub open spec fn summary_ids(s: Seq<SummaryView>) -> Seq<Seq<char>> {
    s.map_values(|x: SummaryView| x.connection_id)
}

/// The summary of the active sessions: how many there are, and per connection
/// (in order of connection id) how many and which one was seen last (the
/// first of those seen at the latest time). The connections are kept as a
/// vector sorted by id: vstd states what a `BTreeMap` does only for keys whose
/// order it specifies, and connection ids are strings.
pub fn summarize_active_sessions(sessions: &Vec<SessionRecord>) -> (r: SessionSummaryData)
    requires
        count_active(session_views(sessions@)) <= u32::MAX,
    ensures
        r.total_active == count_active(session_views(sessions@)),
        strictly_sorted(summary_ids(summary_views(r.connections@))),
        entries_match(
            summary_map(session_views(sessions@)),
            summary_ids(summary_views(r.connections@)),
            summary_views(r.connections@),
        ),
        forall|k: Seq<char>|
            summary_map(session_views(sessions@)).contains_key(k) ==> summary_ids(
                summary_views(r.connections@),
            ).contains(k),
        sum_active_counts(summary_views(r.connections@)) == r.total_active,
{
    let ghost ss = session_views(sessions@);
    assert(summary_views(Seq::<SessionConnectionSummary>::empty()) =~= Seq::<SummaryView>::empty());
    let mut keys: Vec<Vec<char>> = Vec::new();
    let mut entries: Vec<SessionConnectionSummary> = Vec::new();
    let mut total_active: u32 = 0;
    let mut i: usize = 0;
    assert(ss.take(0) =~= Seq::<SessionView>::empty());
    while i < sessions.len()
        invariant
            ss == session_views(sessions@),
            count_active(ss) <= u32::MAX,
            i <= sessions@.len(),
            keys@.len() == entries@.len(),
            strictly_sorted(views(keys@)),
            forall|j: int| 0 <= j < keys@.len() ==> #[trigger] entries@[j]@.connection_id == keys@[j]@,
            entries_match(summary_map(ss.take(i as int)), views(keys@), summary_views(entries@)),
            forall|k: Seq<char>|
                summary_map(ss.take(i as int)).contains_key(k) ==> views(keys@).contains(k),
            forall|j: int| 0 <= j < entries@.len() ==> #[trigger] entries@[j].active_count <= total_active,
            total_active == count_active(ss.take(i as int)),
        decreases sessions@.len() - i,
    {
        let ghost pre = ss.take(i as int);
        let ghost m = summary_map(pre);
        assert(ss.take(i + 1).drop_last() =~= pre);
        assert(ss.take(i + 1).last() == sessions@[i as int]@);
        proof {
            lemma_count_active_prefix(ss, i + 1);
        }
        let s = &sessions[i];
        if s.state == SessionState::Active {
            total_active = total_active + 1;
            let c = chars_of(s.connection_id.as_str());
            let (found, j) = locate(&keys, c.as_slice());
            let ghost kv = views(keys@);
            let ghost ents = entries@;
            assert forall|x: int| 0 <= x < kv.len() implies m.contains_key(kv[x]) && m[kv[x]]
                == #[trigger] ents[x]@ by {
                assert(kv[x] == keys@[x]@);
                assert(ents[x] == entries@[x]);
                assert(summary_views(entries@)[x] == entries@[x]@);
            }
            if found {
                assert(entries@[j as int]@ == m[c@]);
                let updated = add_session(&entries[j], s);
                entries[j] = updated;
                assert forall|x: int| 0 <= x < keys@.len() && x != j implies kv[x] != c@ by {
                    if x < j {
                        assert(seq_lt(kv[x], kv[j as int]));
                        lemma_lt_irreflexive(c@);
                    } else {
                        assert(seq_lt(kv[j as int], kv[x]));
                        lemma_lt_irreflexive(c@);
                    }
                }
                assert(views(keys@) == kv);
            } else {
                let fresh = fresh_entry(&s.connection_id);
                let updated = add_session(&fresh, s);
                let ghost old_entries = entries@;
                keys.insert(j, c);
                entries.insert(j, updated);
                assert(views(keys@) =~= kv.insert(j as int, c@));
                assert forall|x: int, y: int| 0 <= x < y < views(keys@).len() implies seq_lt(
                    #[trigger] views(keys@)[x],
                    #[trigger] views(keys@)[y],
                ) by {
                    if x < j && y < j {
                        assert(seq_lt(kv[x], kv[y]));
                    } else if x < j && y == j {
                    } else if x < j {
                        lemma_lt_transitive(kv[x], c@, kv[y - 1]);
                    } else if x == j {
                    } else {
                        assert(seq_lt(kv[x - 1], kv[y - 1]));
                    }
                }
                assert forall|x: int| 0 <= x < kv.len() implies kv[x] != c@ by {}
            }
            assert(summary_map(ss.take(i + 1)) == m.insert(
                c@,
                add_to_summary(
                    if m.contains_key(c@) {
                        m[c@]
                    } else {
                        fresh_summary(c@)
                    },
                    s@,
                ),
            ));
            let ghost m2 = summary_map(ss.take(i + 1));
            assert forall|x: int| 0 <= x < keys@.len() implies m2.contains_key(keys@[x]@)
                && m2[keys@[x]@] == #[trigger] entries@[x]@ by {
                if found {
                    if x != j {
                        assert(keys@[x]@ == kv[x]);
                        assert(kv[x] != c@);
                        assert(entries@[x] == ents[x]);
                        let e = ents[x]@;
                    } else {
                        assert(keys@[x]@ == c@);
                        assert(m2[c@] == add_to_summary(m[c@], s@));
                    }
                } else {
                    assert(!m.contains_key(c@));
                    if x < j {
                        assert(views(keys@)[x] == kv[x]);
                        assert(entries@[x] == ents[x]);
                        assert(kv[x] != c@);
                        let e = ents[x]@;
                    } else if x > j {
                        assert(views(keys@)[x] == kv[x - 1]);
                        assert(entries@[x] == ents[x - 1]);
                        assert(kv[x - 1] != c@);
                        let e = ents[x - 1]@;
                    } else {
                        assert(views(keys@)[x] == c@);
                        assert(m2[c@] == add_to_summary(fresh_summary(c@), s@));
                    }
                }
            }
            assert forall|k: Seq<char>| summary_map(ss.take(i + 1)).contains_key(k) implies views(
                keys@,
            ).contains(k) by {
                if k == c@ {
                    assert(views(keys@)[j as int] == c@);
                } else {
                    assert(m.contains_key(k));
                    assert(kv.contains(k));
                    let x = choose|x: int| 0 <= x < kv.len() && kv[x] == k;
                    if found {
                        assert(views(keys@)[x] == k);
                    } else if x < j {
                        assert(views(keys@)[x] == k);
                    } else {
                        assert(views(keys@)[x + 1] == k);
                    }
                }
            }
        } else {
            assert(summary_map(ss.take(i + 1)) == m);
            assert forall|x: int| 0 <= x < keys@.len() implies summary_map(ss.take(i + 1)).contains_key(keys@[x]@)
                && summary_map(ss.take(i + 1))[keys@[x]@] == #[trigger] entries@[x]@ by {
                assert(views(keys@)[x] == keys@[x]@);
                assert(summary_views(entries@)[x] == entries@[x]@);
            }
        }
        let ghost next = summary_map(ss.take(i + 1));
        assert forall|x: int| 0 <= x < views(keys@).len() implies next.contains_key(
            #[trigger] views(keys@)[x],
        ) && next[views(keys@)[x]] == summary_views(entries@)[x] by {
            let e = entries@[x]@;
            assert(views(keys@)[x] == keys@[x]@);
            assert(summary_views(entries@)[x] == entries@[x]@);
            assert(next.contains_key(keys@[x]@) && next[keys@[x]@] == entries@[x]@);
        }
        assert(entries_match(next, views(keys@), summary_views(entries@)));
        i += 1;
        assert(next == summary_map(ss.take(i as int)));
    }
    assert(ss.take(sessions@.len() as int) == ss);
    assert(summary_ids(summary_views(entries@)) =~= views(keys@));
    proof {
        law_summary_total(ss, summary_views(entries@));
    }
    SessionSummaryData { total_active, connections: entries }
}

// ---------------------------------------------------------------------------
// Stored rows
// ---------------------------------------------------------------------------

/// A stored port, kept in its low sixteen bits.
pub open spec fn stored_port(v: Option<i64>) -> Option<u16> {
    match v {
        Some(p) => Some(p as u16),
        None => None,
    }
}

/// A stored interval, read back as unsigned.
pub open spec fn stored_secs(v: Option<i64>) -> Option<u64> {
    match v {
        Some(s) => Some(s as u64),
        None => None,
    }
}

fn port_of(v: Option<i64>) -> (r: Option<u16>)
    ensures
        r == stored_port(v),
{
    match v {
        Some(p) => Some(p as u16),
        None => None,
    }
}

fn secs_of(v: Option<i64>) -> (r: Option<u64>)
    ensures
        r == stored_secs(v),
{
    match v {
        Some(s) => Some(s as u64),
        None => None,
    }
}

/// The connection record of a stored row (its columns in table order).
pub fn connection_from_row(
    id: String,
    label: String,
    host: Option<String>,
    port: Option<i64>,
    username: Option<String>,
    kind: &str,
    jump_host: Option<String>,
    default_keepalive_secs: Option<i64>,
    health_state: Option<String>,
    health_message: Option<String>,
    last_health_checked_at: Option<String>,
) -> (r: ConnectionRecord)
    ensures
        r.id@ == id@,
        r.label@ == label@,
        opt_view(r.host) == opt_view(host),
        r.port == stored_port(port),
        opt_view(r.username) == opt_view(username),
        r.kind == parse_connection_kind_spec(kind@),
        opt_view(r.jump_host) == opt_view(jump_host),
        r.default_keepalive_secs == stored_secs(default_keepalive_secs),
        opt_view(r.health_state) == opt_view(health_state),
        opt_view(r.health_message) == opt_view(health_message),
        opt_view(r.last_health_checked_at) == opt_view(last_health_checked_at),
{
    ConnectionRecord {
        id,
        label,
        host,
        port: port_of(port),
        username,
        kind: parse_connection_kind(kind),
        jump_host,
        default_keepalive_secs: secs_of(default_keepalive_secs),
        health_state,
        health_message,
        last_health_checked_at,
    }
}

/// The session record of a stored row (its columns in table order).
pub fn session_from_row(
    id: String,
    connection_id: String,
    session_type: String,
    description: Option<String>,
    state: &str,
    node_role: &str,
    remote_host: Option<String>,
    compute_node: Option<String>,
    keepalive_secs: Option<i64>,
    created_at: String,
    last_seen_at: String,
) -> (r: SessionRecord)
    ensures
        r@ == (SessionView {
            id: id@,
            connection_id: connection_id@,
            session_type: session_type@,
            description: opt_view(description),
            state: parse_session_state_spec(state@),
            node_role: parse_session_node_role_spec(node_role@),
            remote_host: opt_view(remote_host),
            compute_node: opt_view(compute_node),
            keepalive_secs: stored_secs(keepalive_secs),
            created_at: created_at@,
            last_seen_at: last_seen_at@,
        }),
{
    SessionRecord {
        id,
        connection_id,
        session_type,
        description,
        state: parse_session_state(state),
        node_role: parse_session_node_role(node_role),
        remote_host,
        compute_node,
        keepalive_secs: secs_of(keepalive_secs),
        created_at,
        last_seen_at,
    }
}

// ---------------------------------------------------------------------------
// What the summary of active sessions tells
// ---------------------------------------------------------------------------

/// The number of active sessions of connection `c`.
pub open spec fn active_of(ss: Seq<SessionView>, c: Seq<char>) -> nat
    decreases ss.len(),
{
    if ss.len() == 0 {
        0
    } else {
        active_of(ss.drop_last(), c) + if ss.last().state == SessionState::Active
            && ss.last().connection_id == c {
            1nat
        } else {
            0nat
        }
    }
}

proof fn lemma_active_of_bound(ss: Seq<SessionView>, c: Seq<char>)
    ensures
        active_of(ss, c) <= count_active(ss),
    decreases ss.len(),
{
    if ss.len() > 0 {
        lemma_active_of_bound(ss.drop_last(), c);
    }
}

/// A connection has a summary exactly when it has an active session, and
/// its summary counts its active sessions.
pub proof fn law_summary_counts(ss: Seq<SessionView>, c: Seq<char>)
    requires
        count_active(ss) <= u32::MAX,
    ensures
        summary_map(ss).contains_key(c) <==> active_of(ss, c) > 0,
        summary_map(ss).contains_key(c) ==> summary_map(ss)[c].connection_id == c
            && summary_map(ss)[c].active_count == active_of(ss, c),
    decreases ss.len(),
{
    if ss.len() > 0 {
        law_summary_counts(ss.drop_last(), c);
        lemma_active_of_bound(ss.drop_last(), c);
    }
}

/// No active session of a connection was seen later than the one its
/// summary names as current.
pub proof fn law_summary_current_is_latest(ss: Seq<SessionView>, i: int)
    requires
        0 <= i < ss.len(),
        ss[i].state == SessionState::Active,
    ensures
        summary_map(ss).contains_key(ss[i].connection_id),
        summary_map(ss)[ss[i].connection_id].last_seen_at is Some,
        !seq_lt(summary_map(ss)[ss[i].connection_id].last_seen_at->0, ss[i].last_seen_at),
    decreases ss.len(),
{
    let c = ss[i].connection_id;
    let prev = summary_map(ss.drop_last());
    let s = ss.last();
    if i == ss.len() - 1 {
        lemma_lt_irreflexive(s.last_seen_at);
    } else {
        law_summary_current_is_latest(ss.drop_last(), i);
        assert(ss.drop_last()[i] == ss[i]);
        let l = prev[c].last_seen_at->0;
        if s.state == SessionState::Active && s.connection_id == c && seq_lt(l, s.last_seen_at) {
            lemma_lt_total(l, ss[i].last_seen_at);
            if seq_lt(ss[i].last_seen_at, l) {
                lemma_lt_transitive(ss[i].last_seen_at, l, s.last_seen_at);
            }
            lemma_lt_asymmetric(ss[i].last_seen_at, s.last_seen_at);
        }
    }
}

/// The session a summary names as current is an active session of that
/// connection, and the summary shows that session's details.
pub proof fn law_summary_current_is_listed(ss: Seq<SessionView>, c: Seq<char>)
    requires
        summary_map(ss).contains_key(c),
    ensures
        exists|i: int|
            0 <= i < ss.len() && #[trigger] ss[i].state == SessionState::Active && ss[i].connection_id == c
                && summary_map(ss)[c].current_session_id == Some(ss[i].id)
                && summary_map(ss)[c].current_description == ss[i].description
                && summary_map(ss)[c].current_node_role == Some(ss[i].node_role)
                && summary_map(ss)[c].current_compute_node == ss[i].compute_node
                && summary_map(ss)[c].current_keepalive_secs == ss[i].keepalive_secs
                && summary_map(ss)[c].last_seen_at == Some(ss[i].last_seen_at),
    decreases ss.len(),
{
    let prev = summary_map(ss.drop_last());
    let s = ss.last();
    let m = summary_map(ss);
    let k = ss.len() - 1;
    if s.state == SessionState::Active && s.connection_id == c && (!prev.contains_key(c)
        || prev[c].last_seen_at is None || seq_lt(prev[c].last_seen_at->0, s.last_seen_at)) {
        assert(ss[k] == s);
        assert(ss[k].state == SessionState::Active);
    } else {
        assert(prev.contains_key(c)) by {
            if !prev.contains_key(c) {
                assert(s.state == SessionState::Active && s.connection_id == c);
            }
        }
        law_summary_current_is_listed(ss.drop_last(), c);
        let i = choose|i: int|
            0 <= i < ss.drop_last().len() && #[trigger] ss.drop_last()[i].state == SessionState::Active
                && ss.drop_last()[i].connection_id == c && prev[c].current_session_id == Some(
                ss.drop_last()[i].id,
            ) && prev[c].current_description == ss.drop_last()[i].description
                && prev[c].current_node_role == Some(ss.drop_last()[i].node_role)
                && prev[c].current_compute_node == ss.drop_last()[i].compute_node
                && prev[c].current_keepalive_secs == ss.drop_last()[i].keepalive_secs
                && prev[c].last_seen_at == Some(ss.drop_last()[i].last_seen_at);
        assert(ss.drop_last()[i] == ss[i]);
        assert(ss[i].state == SessionState::Active);
    }
}

/// The sessions come latest seen first: none was seen before one that
/// follows it.
pub open spec fn latest_seen_first(ss: Seq<SessionView>) -> bool {
    forall|a: int, b: int|
        0 <= a < b < ss.len() ==> !seq_lt(#[trigger] ss[a].last_seen_at, #[trigger] ss[b].last_seen_at)
}

/// Where the sessions come latest seen first, the session a summary names
/// as current is the first active session of that connection, and the
/// summary shows that session's details.
pub proof fn law_summary_current_is_first(ss: Seq<SessionView>, i: int)
    requires
        latest_seen_first(ss),
        0 <= i < ss.len(),
        ss[i].state == SessionState::Active,
        forall|a: int|
            0 <= a < i ==> !(#[trigger] ss[a].state == SessionState::Active && ss[a].connection_id
                == ss[i].connection_id),
    ensures
        summary_map(ss).contains_key(ss[i].connection_id),
        summary_map(ss)[ss[i].connection_id].current_session_id == Some(ss[i].id),
        summary_map(ss)[ss[i].connection_id].current_description == ss[i].description,
        summary_map(ss)[ss[i].connection_id].current_node_role == Some(ss[i].node_role),
        summary_map(ss)[ss[i].connection_id].current_compute_node == ss[i].compute_node,
        summary_map(ss)[ss[i].connection_id].current_keepalive_secs == ss[i].keepalive_secs,
        summary_map(ss)[ss[i].connection_id].last_seen_at == Some(ss[i].last_seen_at),
    decreases ss.len(),
{
    let c = ss[i].connection_id;
    let p = ss.drop_last();
    let prev = summary_map(p);
    let s = ss.last();
    if i == ss.len() - 1 {
        if prev.contains_key(c) {
            law_summary_current_is_listed(p, c);
            let a = choose|a: int|
                0 <= a < p.len() && #[trigger] p[a].state == SessionState::Active && p[a].connection_id == c
                    && prev[c].current_session_id == Some(p[a].id)
                    && prev[c].current_description == p[a].description
                    && prev[c].current_node_role == Some(p[a].node_role)
                    && prev[c].current_compute_node == p[a].compute_node
                    && prev[c].current_keepalive_secs == p[a].keepalive_secs
                    && prev[c].last_seen_at == Some(p[a].last_seen_at);
            assert(p[a] == ss[a]);
            assert(ss[a].state == SessionState::Active);
        }
    } else {
        assert forall|a: int, b: int| 0 <= a < b < p.len() implies !seq_lt(
            #[trigger] p[a].last_seen_at,
            #[trigger] p[b].last_seen_at,
        ) by {
            assert(p[a] == ss[a] && p[b] == ss[b]);
        }
        assert forall|a: int| 0 <= a < i implies !(#[trigger] p[a].state == SessionState::Active
            && p[a].connection_id == p[i].connection_id) by {
            assert(p[a] == ss[a]);
            assert(ss[a].state == SessionState::Active ==> ss[a].connection_id != c);
        }
        assert(p[i] == ss[i]);
        law_summary_current_is_first(p, i);
        assert(ss[ss.len() - 1] == s);
        assert(!seq_lt(ss[i].last_seen_at, ss[ss.len() - 1].last_seen_at));
    }
}

/// The active counts of the summaries, added up.
pub open spec fn sum_active_counts(s: Seq<SummaryView>) -> nat
    decreases s.len(),
{
    if s.len() == 0 {
        0
    } else {
        sum_active_counts(s.drop_last()) + s.last().active_count as nat
    }
}

/// The active sessions of the connections `ks`, added up.
spec fn sum_active_of(ss: Seq<SessionView>, ks: Seq<Seq<char>>) -> nat
    decreases ks.len(),
{
    if ks.len() == 0 {
        0
    } else {
        sum_active_of(ss, ks.drop_last()) + active_of(ss, ks.last())
    }
}

/// How often `c` occurs in `ks`.
spec fn hits(ks: Seq<Seq<char>>, c: Seq<char>) -> nat
    decreases ks.len(),
{
    if ks.len() == 0 {
        0
    } else {
        hits(ks.drop_last(), c) + if ks.last() == c {
            1nat
        } else {
            0nat
        }
    }
}

spec fn distinct(ks: Seq<Seq<char>>) -> bool {
    forall|i: int, j: int| 0 <= i < j < ks.len() ==> #[trigger] ks[i] != #[trigger] ks[j]
}

proof fn lemma_hits_distinct(ks: Seq<Seq<char>>, c: Seq<char>)
    requires
        distinct(ks),
    ensures
        hits(ks, c) == if ks.contains(c) {
            1nat
        } else {
            0nat
        },
    decreases ks.len(),
{
    if ks.len() > 0 {
        let p = ks.drop_last();
        assert(distinct(p)) by {
            assert forall|i: int, j: int| 0 <= i < j < p.len() implies #[trigger] p[i] != #[trigger] p[j] by {
                assert(p[i] == ks[i] && p[j] == ks[j]);
            }
        }
        lemma_hits_distinct(p, c);
        if ks.last() == c {
            assert(ks[ks.len() - 1] == c);
            assert(!p.contains(c)) by {
                if p.contains(c) {
                    let i = choose|i: int| 0 <= i < p.len() && p[i] == c;
                    assert(ks[i] == c);
                }
            }
        } else {
            assert(ks.contains(c) ==> p.contains(c)) by {
                if ks.contains(c) {
                    let i = choose|i: int| 0 <= i < ks.len() && ks[i] == c;
                    assert(i < ks.len() - 1);
                    assert(p[i] == c);
                }
            }
            assert(p.contains(c) ==> ks.contains(c)) by {
                if p.contains(c) {
                    let i = choose|i: int| 0 <= i < p.len() && p[i] == c;
                    assert(ks[i] == c);
                }
            }
        }
    }
}

proof fn lemma_sum_active_step(ss: Seq<SessionView>, ks: Seq<Seq<char>>)
    requires
        ss.len() > 0,
    ensures
        sum_active_of(ss, ks) == sum_active_of(ss.drop_last(), ks) + if ss.last().state
            == SessionState::Active {
            hits(ks, ss.last().connection_id)
        } else {
            0nat
        },
    decreases ks.len(),
{
    if ks.len() > 0 {
        lemma_sum_active_step(ss, ks.drop_last());
    }
}

proof fn lemma_active_seen(ss: Seq<SessionView>, i: int)
    requires
        0 <= i < ss.len(),
        ss[i].state == SessionState::Active,
    ensures
        active_of(ss, ss[i].connection_id) > 0,
    decreases ss.len(),
{
    if i < ss.len() - 1 {
        lemma_active_seen(ss.drop_last(), i);
        assert(ss.drop_last()[i] == ss[i]);
    }
}

proof fn lemma_sum_active_none(ss: Seq<SessionView>, ks: Seq<Seq<char>>)
    requires
        ss.len() == 0,
    ensures
        sum_active_of(ss, ks) == 0,
    decreases ks.len(),
{
    if ks.len() > 0 {
        lemma_sum_active_none(ss, ks.drop_last());
    }
}

proof fn lemma_sum_active_total(ss: Seq<SessionView>, ks: Seq<Seq<char>>)
    requires
        distinct(ks),
        forall|i: int|
            0 <= i < ss.len() && #[trigger] ss[i].state == SessionState::Active ==> ks.contains(
                ss[i].connection_id,
            ),
    ensures
        sum_active_of(ss, ks) == count_active(ss),
    decreases ss.len(),
{
    if ss.len() > 0 {
        let p = ss.drop_last();
        assert forall|i: int|
            0 <= i < p.len() && #[trigger] p[i].state == SessionState::Active implies ks.contains(
                p[i].connection_id,
            ) by {
            assert(p[i] == ss[i]);
        }
        lemma_sum_active_total(p, ks);
        lemma_sum_active_step(ss, ks);
        lemma_hits_distinct(ks, ss.last().connection_id);
        if ss.last().state == SessionState::Active {
            assert(ss[ss.len() - 1] == ss.last());
        }
    } else {
        lemma_sum_active_none(ss, ks);
    }
}

proof fn lemma_sum_counts_match(ss: Seq<SessionView>, ents: Seq<SummaryView>)
    requires
        forall|j: int|
            0 <= j < ents.len() ==> #[trigger] ents[j].active_count == active_of(ss, ents[j].connection_id),
    ensures
        sum_active_counts(ents) == sum_active_of(ss, summary_ids(ents)),
    decreases ents.len(),
{
    if ents.len() > 0 {
        let p = ents.drop_last();
        assert forall|j: int| 0 <= j < p.len() implies #[trigger] p[j].active_count == active_of(
            ss,
            p[j].connection_id,
        ) by {
            assert(p[j] == ents[j]);
        }
        lemma_sum_counts_match(ss, p);
        assert(summary_ids(ents).drop_last() =~= summary_ids(p));
        assert(ents[ents.len() - 1] == ents.last());
    }
}

/// The active counts of a summary's connections add up to its number of
/// active sessions.
pub proof fn law_summary_total(ss: Seq<SessionView>, ents: Seq<SummaryView>)
    requires
        count_active(ss) <= u32::MAX,
        strictly_sorted(summary_ids(ents)),
        entries_match(summary_map(ss), summary_ids(ents), ents),
        forall|k: Seq<char>| summary_map(ss).contains_key(k) ==> summary_ids(ents).contains(k),
    ensures
        sum_active_counts(ents) == count_active(ss),
{
    let ks = summary_ids(ents);
    let m = summary_map(ss);
    assert(distinct(ks)) by {
        assert forall|i: int, j: int| 0 <= i < j < ks.len() implies #[trigger] ks[i] != #[trigger] ks[j] by {
            assert(seq_lt(ks[i], ks[j]));
            lemma_lt_irreflexive(ks[i]);
        }
    }
    assert forall|j: int| 0 <= j < ents.len() implies #[trigger] ents[j].active_count == active_of(
        ss,
        ents[j].connection_id,
    ) by {
        assert(ks[j] == ents[j].connection_id);
        assert(m.contains_key(ks[j]) && m[ks[j]] == ents[j]);
        law_summary_counts(ss, ks[j]);
    }
    lemma_sum_counts_match(ss, ents);
    assert forall|i: int|
        0 <= i < ss.len() && #[trigger] ss[i].state == SessionState::Active implies ks.contains(
            ss[i].connection_id,
        ) by {
        lemma_active_seen(ss, i);
        law_summary_counts(ss, ss[i].connection_id);
    }
    lemma_sum_active_total(ss, ks);
}

} // verus!
