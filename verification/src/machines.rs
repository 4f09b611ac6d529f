//! Analysis machines as the database holds them, and the queries that select them.
use crate::packer_template::opt_view;
use crate::text::{copy_opt_string, copy_string};
use vstd::prelude::*;

verus! {

/// The architecture of a machine.
#[derive(Debug, Clone, Copy, PartialEq, Eq, Structural)]
pub enum MachineArch {
    X86,
    X64,
}

/// The operating system of a machine.
#[derive(Debug, Clone, Copy, PartialEq, Eq, Structural)]
pub enum MachinePlatform {
    Windows,
    Linux,
    MacOs,
}

/// A machine to store. Times are Unix timestamps in nanoseconds.
#[derive(Debug)]
pub struct Machine {
    pub name: String,
    pub label: String,
    pub arch: MachineArch,
    pub platform: MachinePlatform,
    pub ip: String,
    pub tags: Option<Vec<String>>,
    pub interface: Option<String>,
    pub snapshot: Option<String>,
    pub locked: bool,
    pub locked_changed_on: Option<i128>,
    pub status: Option<String>,
    pub status_changed_on: Option<i128>,
    pub result_server_ip: Option<String>,
    pub result_server_port: Option<String>,
    pub reserved: bool,
}

impl Machine {
    /// A machine with empty texts, on x64 Windows, unlocked, unreserved.
    pub fn default_machine() -> (r: Self)
        ensures
            r.name@ == Seq::<char>::empty() && r.label@ == Seq::<char>::empty() && r.ip@ == Seq::<char>::empty(),
            r.arch == MachineArch::X64,
            r.platform == MachinePlatform::Windows,
            r.tags is None && r.interface is None && r.snapshot is None,
            !r.locked && r.locked_changed_on is None,
            r.status is None && r.status_changed_on is None,
            r.result_server_ip is None && r.result_server_port is None,
            !r.reserved,
    {
        Machine {
            name: String::new(),
            label: String::new(),
            arch: MachineArch::X64,
            platform: MachinePlatform::Windows,
            ip: String::new(),
            tags: None,
            interface: None,
            snapshot: None,
            locked: false,
            locked_changed_on: None,
            status: None,
            status_changed_on: None,
            result_server_ip: None,
            result_server_port: None,
            reserved: false,
        }
    }
}

/// What to select machines by; each condition given narrows the selection.
#[derive(Debug)]
pub struct MachineFilter {
    pub locked: Option<bool>,
    pub label: Option<String>,
    pub platform: Option<MachinePlatform>,
    pub tags: Option<String>,
    pub arch: Option<MachineArch>,
    pub include_reserved: bool,
    pub os_version: Option<String>,
}

/// A value bound into a query.
#[derive(Debug)]
pub enum QueryValue {
    Bool(bool),
    Text(String),
    Platform(MachinePlatform),
    Arch(MachineArch),
}

/// A piece of a query: SQL text, or a value bound in its place.
#[derive(Debug)]
pub enum QueryPart {
    Sql(String),
    Bind(QueryValue),
}

/// A query piece as plain values.
pub enum QueryPartView {
    Sql(Seq<char>),
    BindBool(bool),
    BindText(Seq<char>),
    BindPlatform(MachinePlatform),
    BindArch(MachineArch),
}

pub open spec fn part_view(p: QueryPart) -> QueryPartView {
    match p {
        QueryPart::Sql(s) => QueryPartView::Sql(s@),
        QueryPart::Bind(QueryValue::Bool(b)) => QueryPartView::BindBool(b),
        QueryPart::Bind(QueryValue::Text(t)) => QueryPartView::BindText(t@),
        QueryPart::Bind(QueryValue::Platform(p)) => QueryPartView::BindPlatform(p),
        QueryPart::Bind(QueryValue::Arch(a)) => QueryPartView::BindArch(a),
    }
}

pub open spec fn parts_view(v: Seq<QueryPart>) -> Seq<QueryPartView> {
    v.map_values(|p: QueryPart| part_view(p))
}

/// `sql` and a bound flag, when there is one.
pub open spec fn bool_cond(sql: Seq<char>, v: Option<bool>) -> Seq<QueryPartView> {
    match v {
        Some(b) => seq![QueryPartView::Sql(sql), QueryPartView::BindBool(b)],
        None => Seq::empty(),
    }
}

/// `sql` and a bound text, when there is one.
pub open spec fn text_cond(sql: Seq<char>, v: Option<String>) -> Seq<QueryPartView> {
    match v {
        Some(t) => seq![QueryPartView::Sql(sql), QueryPartView::BindText(t@)],
        None => Seq::empty(),
    }
}

/// `sql` and a bound platform, when there is one.
pub open spec fn platform_cond(sql: Seq<char>, v: Option<MachinePlatform>) -> Seq<QueryPartView> {
    match v {
        Some(p) => seq![QueryPartView::Sql(sql), QueryPartView::BindPlatform(p)],
        None => Seq::empty(),
    }
}

/// `sql` and a bound architecture, when there is one.
pub open spec fn arch_cond(sql: Seq<char>, v: Option<MachineArch>) -> Seq<QueryPartView> {
    match v {
        Some(a) => seq![QueryPartView::Sql(sql), QueryPartView::BindArch(a)],
        None => Seq::empty(),
    }
}

/// The condition that leaves out reserved machines, unless they are included.
pub open spec fn reserved_cond(include_reserved: bool) -> Seq<QueryPartView> {
    if !include_reserved {
        seq![QueryPartView::Sql(" AND reserved = false"@)]
    } else {
        Seq::empty()
    }
}

/// The conditions a filter adds to a query, in this order: locked, label, platform,
/// tags, architecture, operating system version, and leaving out reserved machines
/// unless they are included.
pub open spec fn filter_parts(f: Option<MachineFilter>) -> Seq<QueryPartView> {
    match f {
        None => Seq::empty(),
        Some(f) => bool_cond(" AND locked = "@, f.locked) + text_cond(" AND label = "@, f.label)
            + platform_cond(" AND platform = "@, f.platform) + text_cond(" AND tags @> "@, f.tags)
            + arch_cond(" AND arch = "@, f.arch) + text_cond(" AND os_version = "@, f.os_version)
            + reserved_cond(f.include_reserved),
    }
}

fn push_part(parts: &mut Vec<QueryPart>, p: QueryPart)
    ensures
        parts_view(final(parts)@) == parts_view(old(parts)@).push(part_view(p)),
{
    let ghost before = parts@;
    let ghost pv = part_view(p);
    parts.push(p);
    assert(parts_view(parts@) =~= parts_view(before).push(pv));
}

fn push_pair(parts: &mut Vec<QueryPart>, sql: &str, v: QueryValue)
    ensures
        parts_view(final(parts)@) == parts_view(old(parts)@) + seq![QueryPartView::Sql(sql@), part_view(QueryPart::Bind(v))],
{
    let ghost before = parts_view(parts@);
    let ghost vv = part_view(QueryPart::Bind(v));
    push_part(parts, QueryPart::Sql(String::from_str(sql)));
    push_part(parts, QueryPart::Bind(v));
    assert(parts_view(parts@) =~= before + seq![QueryPartView::Sql(sql@), vv]);
}

fn push_bool_cond(parts: &mut Vec<QueryPart>, sql: &str, v: Option<bool>)
    ensures
        parts_view(final(parts)@) == parts_view(old(parts)@) + bool_cond(sql@, v),
{
    match v {
        Some(b) => push_pair(parts, sql, QueryValue::Bool(b)),
        None => assert(parts_view(parts@) =~= parts_view(parts@) + bool_cond(sql@, v)),
    }
}

fn push_text_cond(parts: &mut Vec<QueryPart>, sql: &str, v: Option<String>)
    ensures
        parts_view(final(parts)@) == parts_view(old(parts)@) + text_cond(sql@, v),
{
    match v {
        Some(t) => push_pair(parts, sql, QueryValue::Text(t)),
        None => assert(parts_view(parts@) =~= parts_view(parts@) + text_cond(sql@, None)),
    }
}

fn push_platform_cond(parts: &mut Vec<QueryPart>, sql: &str, v: Option<MachinePlatform>)
    ensures
        parts_view(final(parts)@) == parts_view(old(parts)@) + platform_cond(sql@, v),
{
    match v {
        Some(p) => push_pair(parts, sql, QueryValue::Platform(p)),
        None => assert(parts_view(parts@) =~= parts_view(parts@) + platform_cond(sql@, v)),
    }
}

fn push_arch_cond(parts: &mut Vec<QueryPart>, sql: &str, v: Option<MachineArch>)
    ensures
        parts_view(final(parts)@) == parts_view(old(parts)@) + arch_cond(sql@, v),
{
    match v {
        Some(a) => push_pair(parts, sql, QueryValue::Arch(a)),
        None => assert(parts_view(parts@) =~= parts_view(parts@) + arch_cond(sql@, v)),
    }
}

/// Appends the conditions of a filter.
fn push_filter(parts: &mut Vec<QueryPart>, f: MachineFilter)
    ensures
        parts_view(final(parts)@) == parts_view(old(parts)@) + filter_parts(Some(f)),
{
    let ghost p0 = parts_view(parts@);
    let ghost g = f;
    let MachineFilter { locked, label, platform, tags, arch, include_reserved, os_version } = f;
    push_bool_cond(parts, " AND locked = ", locked);
    let ghost p1 = parts_view(parts@);
    push_text_cond(parts, " AND label = ", label);
    let ghost p2 = parts_view(parts@);
    push_platform_cond(parts, " AND platform = ", platform);
    let ghost p3 = parts_view(parts@);
    push_text_cond(parts, " AND tags @> ", tags);
    let ghost p4 = parts_view(parts@);
    push_arch_cond(parts, " AND arch = ", arch);
    let ghost p5 = parts_view(parts@);
    push_text_cond(parts, " AND os_version = ", os_version);
    let ghost p6 = parts_view(parts@);
    if !include_reserved {
        push_part(parts, QueryPart::Sql(String::from_str(" AND reserved = false")));
    }
    let ghost p7 = parts_view(parts@);
    proof {
        assert(p7 =~= p6 + reserved_cond(g.include_reserved));
        let c1 = bool_cond(" AND locked = "@, g.locked);
        let c2 = text_cond(" AND label = "@, g.label);
        let c3 = platform_cond(" AND platform = "@, g.platform);
        let c4 = text_cond(" AND tags @> "@, g.tags);
        let c5 = arch_cond(" AND arch = "@, g.arch);
        let c6 = text_cond(" AND os_version = "@, g.os_version);
        let c7 = reserved_cond(g.include_reserved);
        assert(p2 =~= p0 + (c1 + c2));
        assert(p3 =~= p0 + (c1 + c2 + c3));
        assert(p4 =~= p0 + (c1 + c2 + c3 + c4));
        assert(p5 =~= p0 + (c1 + c2 + c3 + c4 + c5));
        assert(p6 =~= p0 + (c1 + c2 + c3 + c4 + c5 + c6));
        assert(p7 =~= p0 + (c1 + c2 + c3 + c4 + c5 + c6 + c7));
    }
}

/// The pieces of a machine query: `base`, then the filter's conditions.
pub fn machine_query(base: &str, filter: Option<MachineFilter>) -> (r: Vec<QueryPart>)
    ensures
        parts_view(r@) == seq![QueryPartView::Sql(base@)] + filter_parts(filter),
{
    let mut parts: Vec<QueryPart> = Vec::new();
    push_part(&mut parts, QueryPart::Sql(String::from_str(base)));
    assert(parts_view(parts@) =~= seq![QueryPartView::Sql(base@)]);
    match filter {
        None => {
            assert(parts_view(parts@) =~= seq![QueryPartView::Sql(base@)] + filter_parts(None));
        },
        Some(f) => {
            push_filter(&mut parts, f);
        },
    }
    parts
}

/// The query text that selects machines; the filter's conditions follow it.
pub const MACHINES_QUERY: &'static str = "\n            SELECT id, name, label, arch, platform AS \"platform!: MachinePlatform, ip, tags, interface, snapshot, locked, locked_changed_on, status, status_changed_on,\n            result_server_ip, result_server_port, reserved\n            FROM \"machines\"\n        ";

/// The query text that selects one machine; the filter's conditions follow it.
pub const MACHINE_QUERY: &'static str = "\n            SELECT id, name, label, arch, platform, ip, tags, interface, snapshot, locked, locked_changed_on, status, status_changed_on,\n            result_server_ip, result_server_port, reserved\n            FROM \"machines\" WHERE 1 = 1\n        ";

/// The pieces of the query that fetches machines.
pub fn fetch_machines_query(filter: Option<MachineFilter>) -> (r: Vec<QueryPart>)
    ensures
        parts_view(r@) == seq![QueryPartView::Sql(MACHINES_QUERY@)] + filter_parts(filter),
{
    machine_query(MACHINES_QUERY, filter)
}

/// The pieces of the query that fetches one machine.
pub fn fetch_machine_query(filter: Option<MachineFilter>) -> (r: Vec<QueryPart>)
    ensures
        parts_view(r@) == seq![QueryPartView::Sql(MACHINE_QUERY@)] + filter_parts(filter),
{
    machine_query(MACHINE_QUERY, filter)
}

/// `parts` holds the SQL text `sql` directly followed by the bound value `v`.
pub open spec fn binds_after(parts: Seq<QueryPartView>, sql: Seq<char>, v: QueryPartView) -> bool {
    exists|i: int| 0 <= i && i + 1 < parts.len() && #[trigger] parts[i] == QueryPartView::Sql(sql) && parts[i + 1] == v
}

/// Law: each condition a filter sets binds the filter's own value right after its
/// SQL text (`locked` its flag, `label` its label, and so on); leaving out reserved
/// machines adds its SQL text; and the conditions hold two pieces per value set,
/// plus one when reserved machines are left out, and nothing else.
pub proof fn law_filter_binds_its_values(f: MachineFilter)
    ensures
        ({
            let p = filter_parts(Some(f));
            &&& f.locked matches Some(b) ==> binds_after(p, " AND locked = "@, QueryPartView::BindBool(b))
            &&& f.label matches Some(t) ==> binds_after(p, " AND label = "@, QueryPartView::BindText(t@))
            &&& f.platform matches Some(x) ==> binds_after(p, " AND platform = "@, QueryPartView::BindPlatform(x))
            &&& f.tags matches Some(t) ==> binds_after(p, " AND tags @> "@, QueryPartView::BindText(t@))
            &&& f.arch matches Some(a) ==> binds_after(p, " AND arch = "@, QueryPartView::BindArch(a))
            &&& f.os_version matches Some(t) ==> binds_after(p, " AND os_version = "@, QueryPartView::BindText(t@))
            &&& !f.include_reserved ==> p.last() == QueryPartView::Sql(" AND reserved = false"@)
            &&& p.len() == (if f.locked is Some { 2int } else { 0 }) + (if f.label is Some { 2int } else { 0 }) + (
            if f.platform is Some { 2int } else { 0 }) + (if f.tags is Some { 2int } else { 0 }) + (if f.arch is Some {
                2int
            } else { 0 }) + (if f.os_version is Some { 2int } else { 0 }) + (if f.include_reserved { 0int } else { 1 })
        }),
    filter_parts(None) == Seq::<QueryPartView>::empty(),
{
    let a = bool_cond(" AND locked = "@, f.locked);
    let b = text_cond(" AND label = "@, f.label);
    let c = platform_cond(" AND platform = "@, f.platform);
    let d = text_cond(" AND tags @> "@, f.tags);
    let e = arch_cond(" AND arch = "@, f.arch);
    let g = text_cond(" AND os_version = "@, f.os_version);
    let h = reserved_cond(f.include_reserved);
    let p = filter_parts(Some(f));
    assert(p == a + b + c + d + e + g + h);
    let ob = a.len() as int;
    let oc = ob + b.len();
    let od = oc + c.len();
    let oe = od + d.len();
    let og = oe + e.len();
    let oh = og + g.len();
    if f.locked is Some {
        assert(p[0] == a[0] && p[1] == a[1]);
    }
    if f.label is Some {
        assert(p[ob] == b[0] && p[ob + 1] == b[1]);
    }
    if f.platform is Some {
        assert(p[oc] == c[0] && p[oc + 1] == c[1]);
    }
    if f.tags is Some {
        assert(p[od] == d[0] && p[od + 1] == d[1]);
    }
    if f.arch is Some {
        assert(p[oe] == e[0] && p[oe + 1] == e[1]);
    }
    if f.os_version is Some {
        assert(p[og] == g[0] && p[og + 1] == g[1]);
    }
    if !f.include_reserved {
        assert(p[oh] == h[0]);
    }
}

} // verus!
