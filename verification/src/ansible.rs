//! Ansible: where playbooks and inventories live, the command lines that run
//! playbooks, and the text of new playbooks and inventories.
use crate::cli_args::{kv_args, push_arg, push_kv_args};
use crate::packer_template::opt_view;
use crate::paths::{path_join, path_join_exec};
use crate::string_map::pairs_view;
use crate::terraform_parse::InfraError;
use crate::text::{append_str, copy_string, join, join_exec, views};
use vstd::prelude::*;

verus! {

/// `<name>.yml`.
pub open spec fn yml_name(name: Seq<char>) -> Seq<char> {
    name + ".yml"@
}

fn yml_name_exec(name: &str) -> (r: String)
    ensures
        r@ == yml_name(name@),
{
    let mut s = String::from_str(name);
    append_str(&mut s, ".yml");
    s
}

/// The file of a playbook: `<ansible>/playbooks/<name>.yml`.
pub fn playbook_path(ansible_dir: &str, name: &str) -> (r: String)
    ensures
        r@ == path_join(path_join(ansible_dir@, "playbooks"@), yml_name(name@)),
{
    let d = path_join_exec(ansible_dir, "playbooks");
    let f = yml_name_exec(name);
    path_join_exec(d.as_str(), f.as_str())
}

/// The file of an inventory: `<ansible>/inventories/<name>.yml`.
pub fn inventory_path(ansible_dir: &str, name: &str) -> (r: String)
    ensures
        r@ == path_join(path_join(ansible_dir@, "inventories"@), yml_name(name@)),
{
    let d = path_join_exec(ansible_dir, "inventories");
    let f = yml_name_exec(name);
    path_join_exec(d.as_str(), f.as_str())
}

/// The inventory of a test environment: `<ansible>/inventories/<environment>`.
pub fn test_inventory_path(ansible_dir: &str, environment: &str) -> (r: String)
    ensures
        r@ == path_join(path_join(ansible_dir@, "inventories"@), environment@),
{
    let d = path_join_exec(ansible_dir, "inventories");
    path_join_exec(d.as_str(), environment)
}

/// The error for a playbook that does not exist.
pub fn playbook_not_found(name: &str) -> (r: InfraError)
    ensures
        r matches InfraError::NotFound(m) && m@ == "Playbook "@ + name@ + " not found"@,
{
    let mut m = String::from_str("Playbook ");
    append_str(&mut m, name);
    append_str(&mut m, " not found");
    InfraError::NotFound(m)
}

/// The error for a test environment that does not exist.
pub fn environment_not_found(environment: &str) -> (r: InfraError)
    ensures
        r matches InfraError::NotFound(m) && m@ == "Test environment "@ + environment@ + " not found"@,
{
    let mut m = String::from_str("Test environment ");
    append_str(&mut m, environment);
    append_str(&mut m, " not found");
    InfraError::NotFound(m)
}

/// How a playbook run is set up.
#[derive(Debug)]
pub struct PlaybookConfig {
    pub name: String,
    pub inventory: Option<String>,
    pub become_root: bool,
    pub tags: Vec<String>,
    pub variables: Vec<(String, String)>,
}

/// `flag value` when there is a value.
pub open spec fn opt_flag(flag: Seq<char>, v: Option<Seq<char>>) -> Seq<Seq<char>> {
    match v {
        Some(x) => seq![flag, x],
        None => Seq::empty(),
    }
}

/// `flag` when `on`.
pub open spec fn switch(flag: Seq<char>, on: bool) -> Seq<Seq<char>> {
    if on {
        seq![flag]
    } else {
        Seq::empty()
    }
}

fn push_opt_flag(args: &mut Vec<String>, flag: &str, v: &Option<String>)
    ensures
        views(final(args)@) == views(old(args)@) + opt_flag(flag@, opt_view(*v)),
{
    match v {
        Some(x) => {
            push_arg(args, flag);
            push_arg(args, x.as_str());
        },
        None => {},
    }
    assert(views(args@) =~= views(old(args)@) + opt_flag(flag@, opt_view(*v)));
}

fn push_switch(args: &mut Vec<String>, flag: &str, on: bool)
    ensures
        views(final(args)@) == views(old(args)@) + switch(flag@, on),
{
    if on {
        push_arg(args, flag);
    }
    assert(views(args@) =~= views(old(args)@) + switch(flag@, on));
}

/// `--tags a,b,...` when there are tags.
pub open spec fn tags_args(tags: Seq<Seq<char>>) -> Seq<Seq<char>> {
    if tags.len() > 0 {
        seq!["--tags"@, join(tags, ","@)]
    } else {
        Seq::empty()
    }
}

/// The arguments of `ansible-playbook` for a run: the playbook, `--become`, the
/// inventory, the variables and the tags.
pub fn run_args(playbook: &str, config: &PlaybookConfig) -> (r: Vec<String>)
    ensures
        views(r@) == seq![playbook@] + switch("--become"@, config.become_root)
            + opt_flag("-i"@, opt_view(config.inventory)) + kv_args("-e"@, pairs_view(config.variables@))
            + tags_args(views(config.tags@)),
{
    let mut a: Vec<String> = Vec::new();
    push_arg(&mut a, playbook);
    assert(views(a@) =~= seq![playbook@]);
    push_switch(&mut a, "--become", config.become_root);
    push_opt_flag(&mut a, "-i", &config.inventory);
    push_kv_args(&mut a, "-e", &config.variables);
    let ghost mid = views(a@);
    if config.tags.len() > 0 {
        push_arg(&mut a, "--tags");
        let t = join_exec(&config.tags, ",");
        push_arg(&mut a, t.as_str());
    }
    assert(views(a@) =~= mid + tags_args(views(config.tags@)));
    a
}

/// `-l target` for each target.
pub open spec fn limit_args(targets: Seq<Seq<char>>) -> Seq<Seq<char>>
    decreases targets.len(),
{
    if targets.len() == 0 {
        Seq::empty()
    } else {
        limit_args(targets.drop_last()) + seq!["-l"@, targets.last()]
    }
}

/// How playbooks are applied: with `--become`, an inventory, and extra variables.
#[derive(Debug)]
pub struct PlaybookManager {
    pub become_root: bool,
    pub inventory: Option<String>,
    pub extra_vars: Vec<(String, String)>,
}

impl PlaybookManager {
    /// No `--become`, no inventory, no extra variables.
    pub fn new() -> (r: Self)
        ensures
            !r.become_root,
            r.inventory is None,
            r.extra_vars@.len() == 0,
    {
        PlaybookManager { become_root: false, inventory: None, extra_vars: Vec::new() }
    }

    /// The arguments of `ansible-playbook` that apply a playbook: the playbook, the
    /// inventory, a limit per target, `--check`, `--become`, then the given and the
    /// extra variables.
    pub fn apply_args(&self, playbook: &str, targets: &Vec<String>, check: bool, vars: &Vec<(String, String)>) -> (r: Vec<String>)
        ensures
            views(r@) == seq![playbook@] + opt_flag("-i"@, opt_view(self.inventory)) + limit_args(views(targets@))
                + switch("--check"@, check) + switch("--become"@, self.become_root)
                + kv_args("-e"@, pairs_view(vars@)) + kv_args("-e"@, pairs_view(self.extra_vars@)),
    {
        let mut a: Vec<String> = Vec::new();
        push_arg(&mut a, playbook);
        assert(views(a@) =~= seq![playbook@]);
        push_opt_flag(&mut a, "-i", &self.inventory);
        let ghost start = views(a@);
        let ghost tv = views(targets@);
        let mut i: usize = 0;
        while i < targets.len()
            invariant
                i <= targets.len(),
                tv == views(targets@),
                views(a@) == start + limit_args(tv.take(i as int)),
            decreases targets.len() - i,
        {
            proof {
                assert(tv.take(i + 1).drop_last() =~= tv.take(i as int));
            }
            push_arg(&mut a, "-l");
            push_arg(&mut a, targets[i].as_str());
            i = i + 1;
            assert(views(a@) =~= start + limit_args(tv.take(i as int)));
        }
        assert(tv.take(targets@.len() as int) =~= tv);
        push_switch(&mut a, "--check", check);
        push_switch(&mut a, "--become", self.become_root);
        push_kv_args(&mut a, "-e", vars);
        push_kv_args(&mut a, "-e", &self.extra_vars);
        a
    }

    /// The editor to edit a playbook with: the one given, else the `EDITOR` the
    /// environment names, else `vim`.
    pub fn choose_editor(editor: Option<&str>, env_editor: Option<String>) -> (r: String)
        ensures
            r@ == match editor {
                Some(e) => e@,
                None => match env_editor {
                    Some(e) => e@,
                    None => "vim"@,
                },
            },
    {
        match editor {
            Some(e) => String::from_str(e),
            None => match env_editor {
                Some(e) => e,
                None => String::from_str("vim"),
            },
        }
    }
}

/// The text of a new playbook: one play on all hosts, with privilege escalation, and
/// its roles when there are any.
pub open spec fn playbook_text(description: Seq<char>, roles: Seq<Seq<char>>) -> Seq<char> {
    "---\n- name: "@ + description + "\n  hosts: all\n  become: yes\n\n"@
        + if roles.len() > 0 {
        "  roles:\n"@ + role_lines(roles)
    } else {
        Seq::empty()
    }
}

/// `    - <role>` lines.
pub open spec fn role_lines(roles: Seq<Seq<char>>) -> Seq<char>
    decreases roles.len(),
{
    if roles.len() == 0 {
        Seq::empty()
    } else {
        role_lines(roles.drop_last()) + "    - "@ + roles.last() + "\n"@
    }
}

/// The text of a new playbook.
pub fn generate_playbook_content(description: &str, roles: &Vec<String>) -> (r: String)
    ensures
        r@ == playbook_text(description@, views(roles@)),
{
    let mut c = String::from_str("---\n- name: ");
    append_str(&mut c, description);
    append_str(&mut c, "\n  hosts: all\n  become: yes\n\n");
    let ghost head = c@;
    if roles.len() > 0 {
        append_str(&mut c, "  roles:\n");
        let ghost start = c@;
        let ghost rv = views(roles@);
        let mut i: usize = 0;
        while i < roles.len()
            invariant
                i <= roles.len(),
                rv == views(roles@),
                c@ == start + role_lines(rv.take(i as int)),
            decreases roles.len() - i,
        {
            proof {
                assert(rv.take(i + 1).drop_last() =~= rv.take(i as int));
            }
            append_str(&mut c, "    - ");
            append_str(&mut c, roles[i].as_str());
            append_str(&mut c, "\n");
            i = i + 1;
            assert(c@ =~= start + role_lines(rv.take(i as int)));
        }
        assert(rv.take(roles@.len() as int) =~= rv);
        assert(c@ =~= head + ("  roles:\n"@ + role_lines(rv)));
    } else {
        assert(c@ =~= head + Seq::<char>::empty());
    }
    c
}

/// A host of an inventory.
#[derive(Debug)]
pub struct Host {
    pub name: String,
    pub address: String,
    pub variables: Vec<(String, String)>,
}

/// A group of hosts of an inventory.
#[derive(Debug)]
pub struct Group {
    pub name: String,
    pub hosts: Vec<String>,
    pub variables: Vec<(String, String)>,
}

/// An inventory: hosts, groups, and variables for all hosts.
#[derive(Debug)]
pub struct InventoryConfig {
    pub name: String,
    pub hosts: Vec<Host>,
    pub groups: Vec<Group>,
    pub variables: Vec<(String, String)>,
}

/// `<indent><key>: <value>` lines.
pub open spec fn var_lines(indent: Seq<char>, vars: Seq<(Seq<char>, Seq<char>)>) -> Seq<char>
    decreases vars.len(),
{
    if vars.len() == 0 {
        Seq::empty()
    } else {
        var_lines(indent, vars.drop_last()) + indent + vars.last().0 + ": "@ + vars.last().1 + "\n"@
    }
}

/// The lines of one host.
pub open spec fn host_text(h: Host) -> Seq<char> {
    "    "@ + h.name@ + ":\n"@ + "      ansible_host: "@ + h.address@ + "\n"@
        + var_lines("      "@, pairs_view(h.variables@))
}

/// The lines of the hosts, in order.
pub open spec fn hosts_text(hs: Seq<Host>) -> Seq<char>
    decreases hs.len(),
{
    if hs.len() == 0 {
        Seq::empty()
    } else {
        hosts_text(hs.drop_last()) + host_text(hs.last())
    }
}

/// `        <host>:` lines.
pub open spec fn member_lines(hs: Seq<Seq<char>>) -> Seq<char>
    decreases hs.len(),
{
    if hs.len() == 0 {
        Seq::empty()
    } else {
        member_lines(hs.drop_last()) + "        "@ + hs.last() + ":\n"@
    }
}

/// The lines of one group.
pub open spec fn group_text(g: Group) -> Seq<char> {
    "    "@ + g.name@ + ":\n"@ + "      hosts:\n"@ + member_lines(views(g.hosts@))
        + if g.variables@.len() > 0 {
        "      vars:\n"@ + var_lines("        "@, pairs_view(g.variables@))
    } else {
        Seq::empty()
    }
}

/// The lines of the groups, in order.
pub open spec fn groups_text(gs: Seq<Group>) -> Seq<char>
    decreases gs.len(),
{
    if gs.len() == 0 {
        Seq::empty()
    } else {
        groups_text(gs.drop_last()) + group_text(gs.last())
    }
}

/// The YAML text of an inventory: the hosts under `all`, the groups as its children,
/// and the variables for all hosts when there are any.
pub open spec fn inventory_text(inv: InventoryConfig) -> Seq<char> {
    "all:\n  hosts:\n"@ + hosts_text(inv.hosts@) + "  children:\n"@ + groups_text(inv.groups@)
        + if inv.variables@.len() > 0 {
        "  vars:\n"@ + var_lines("    "@, pairs_view(inv.variables@))
    } else {
        Seq::empty()
    }
}

fn append_var_lines(c: &mut String, indent: &str, vars: &Vec<(String, String)>)
    ensures
        final(c)@ == old(c)@ + var_lines(indent@, pairs_view(vars@)),
{
    let ghost start = c@;
    let ghost pv = pairs_view(vars@);
    let mut i: usize = 0;
    while i < vars.len()
        invariant
            i <= vars.len(),
            pv == pairs_view(vars@),
            c@ == start + var_lines(indent@, pv.take(i as int)),
        decreases vars.len() - i,
    {
        proof {
            assert(pv.take(i + 1).drop_last() =~= pv.take(i as int));
        }
        append_str(c, indent);
        append_str(c, vars[i].0.as_str());
        append_str(c, ": ");
        append_str(c, vars[i].1.as_str());
        append_str(c, "\n");
        i = i + 1;
        assert(c@ =~= start + var_lines(indent@, pv.take(i as int)));
    }
    assert(pv.take(vars@.len() as int) =~= pv);
}

fn append_host(c: &mut String, h: &Host)
    ensures
        final(c)@ == old(c)@ + host_text(*h),
{
    append_str(c, "    ");
    append_str(c, h.name.as_str());
    append_str(c, ":\n");
    append_str(c, "      ansible_host: ");
    append_str(c, h.address.as_str());
    append_str(c, "\n");
    append_var_lines(c, "      ", &h.variables);
    assert(c@ =~= old(c)@ + host_text(*h));
}

fn append_group(c: &mut String, g: &Group)
    ensures
        final(c)@ == old(c)@ + group_text(*g),
{
    append_str(c, "    ");
    append_str(c, g.name.as_str());
    append_str(c, ":\n");
    append_str(c, "      hosts:\n");
    let ghost start = c@;
    let ghost hv = views(g.hosts@);
    let mut i: usize = 0;
    while i < g.hosts.len()
        invariant
            i <= g.hosts.len(),
            hv == views(g.hosts@),
            c@ == start + member_lines(hv.take(i as int)),
        decreases g.hosts.len() - i,
    {
        proof {
            assert(hv.take(i + 1).drop_last() =~= hv.take(i as int));
        }
        append_str(c, "        ");
        append_str(c, g.hosts[i].as_str());
        append_str(c, ":\n");
        i = i + 1;
        assert(c@ =~= start + member_lines(hv.take(i as int)));
    }
    assert(hv.take(g.hosts@.len() as int) =~= hv);
    if g.variables.len() > 0 {
        append_str(c, "      vars:\n");
        append_var_lines(c, "        ", &g.variables);
    }
    assert(c@ =~= old(c)@ + group_text(*g));
}

/// The YAML text of an inventory.
pub fn generate_inventory(inventory: &InventoryConfig) -> (r: Result<String, InfraError>)
    ensures
        r matches Ok(s) && s@ == inventory_text(*inventory),
{
    let mut c = String::from_str("all:\n  hosts:\n");
    let ghost s0 = c@;
    let mut i: usize = 0;
    while i < inventory.hosts.len()
        invariant
            i <= inventory.hosts.len(),
            c@ == s0 + hosts_text(inventory.hosts@.take(i as int)),
        decreases inventory.hosts.len() - i,
    {
        proof {
            assert(inventory.hosts@.take(i + 1).drop_last() =~= inventory.hosts@.take(i as int));
        }
        append_host(&mut c, &inventory.hosts[i]);
        i = i + 1;
        assert(c@ =~= s0 + hosts_text(inventory.hosts@.take(i as int)));
    }
    assert(inventory.hosts@.take(inventory.hosts@.len() as int) =~= inventory.hosts@);
    append_str(&mut c, "  children:\n");
    let ghost s1 = c@;
    let mut j: usize = 0;
    while j < inventory.groups.len()
        invariant
            j <= inventory.groups.len(),
            c@ == s1 + groups_text(inventory.groups@.take(j as int)),
        decreases inventory.groups.len() - j,
    {
        proof {
            assert(inventory.groups@.take(j + 1).drop_last() =~= inventory.groups@.take(j as int));
        }
        append_group(&mut c, &inventory.groups[j]);
        j = j + 1;
        assert(c@ =~= s1 + groups_text(inventory.groups@.take(j as int)));
    }
    assert(inventory.groups@.take(inventory.groups@.len() as int) =~= inventory.groups@);
    let ghost s2 = c@;
    if inventory.variables.len() > 0 {
        append_str(&mut c, "  vars:\n");
        append_var_lines(&mut c, "    ", &inventory.variables);
    }
    assert(c@ =~= inventory_text(*inventory));
    Ok(c)
}

/// The outcome of an `ansible-playbook` run: its error output when it failed.
pub fn run_outcome(success: bool, stderr: String) -> (r: Result<(), InfraError>)
    ensures
        success ==> r is Ok,
        !success ==> (r matches Err(InfraError::Ansible(m)) && m@ == stderr@),
{
    if success {
        Ok(())
    } else {
        Err(InfraError::Ansible(stderr))
    }
}

/// The outcome of applying a playbook: its error output when it failed.
pub fn apply_outcome(success: bool, stderr: String) -> (r: Result<(), InfraError>)
    ensures
        success ==> r is Ok,
        !success ==> (r matches Err(InfraError::Playbook(m)) && m@ == stderr@),
{
    if success {
        Ok(())
    } else {
        Err(InfraError::Playbook(stderr))
    }
}

/// The outcome of editing a playbook: an error when the editor failed.
pub fn editor_outcome(success: bool) -> (r: Result<(), InfraError>)
    ensures
        success ==> r is Ok,
        !success ==> (r matches Err(InfraError::Playbook(m)) && m@ == "Editor exited with error"@),
{
    if success {
        Ok(())
    } else {
        Err(InfraError::Playbook(String::from_str("Editor exited with error")))
    }
}

/// The line `<indent><key>: <value>` followed by a line break.
pub open spec fn var_line(indent: Seq<char>, v: (Seq<char>, Seq<char>)) -> Seq<char> {
    indent + v.0 + ": "@ + v.1 + "\n"@
}

/// Law: the variable lines of two lists one after the other are the lines of the
/// first list followed by the lines of the second; one variable gives its one line,
/// and no variable gives no text. So every variable gets its line, in order.
pub proof fn law_var_lines_concat(
    indent: Seq<char>,
    a: Seq<(Seq<char>, Seq<char>)>,
    b: Seq<(Seq<char>, Seq<char>)>,
)
    ensures
        var_lines(indent, a + b) == var_lines(indent, a) + var_lines(indent, b),
    decreases b.len(),
{
    if b.len() == 0 {
        assert(a + b =~= a);
        assert(var_lines(indent, a) + Seq::<char>::empty() =~= var_lines(indent, a));
    } else {
        law_var_lines_concat(indent, a, b.drop_last());
        assert((a + b).drop_last() =~= a + b.drop_last());
        assert((a + b).last() == b.last());
        assert(var_lines(indent, a + b) =~= var_lines(indent, a) + var_lines(indent, b));
    }
}

/// Law: one variable gives exactly its own line.
pub proof fn law_var_lines_single(indent: Seq<char>, v: (Seq<char>, Seq<char>))
    ensures
        var_lines(indent, seq![v]) == var_line(indent, v),
        var_lines(indent, Seq::<(Seq<char>, Seq<char>)>::empty()) == Seq::<char>::empty(),
{
    assert(seq![v].drop_last() =~= Seq::<(Seq<char>, Seq<char>)>::empty());
    assert(var_lines(indent, seq![v].drop_last()) == Seq::<char>::empty());
    assert(seq![v].last() == v);
    assert(var_lines(indent, seq![v]) =~= var_line(indent, v));
}

/// Law: the line of every variable stands in the text, right after the lines of the
/// variables before it; the text is as long as all those lines together.
pub proof fn law_every_variable_has_its_line(indent: Seq<char>, vars: Seq<(Seq<char>, Seq<char>)>, k: int)
    requires
        0 <= k < vars.len(),
    ensures
        ({
            let start = var_lines(indent, vars.take(k)).len() as int;
            let line = var_line(indent, vars[k]);
            &&& var_lines(indent, vars).subrange(start, start + line.len()) == line
            &&& var_lines(indent, vars).len() == start + line.len() + var_lines(indent, vars.skip(k + 1)).len()
        }),
{
    let pre = vars.take(k);
    let rest = vars.skip(k + 1);
    assert(vars =~= pre + (seq![vars[k]] + rest));
    law_var_lines_concat(indent, pre, seq![vars[k]] + rest);
    law_var_lines_concat(indent, seq![vars[k]], rest);
    law_var_lines_single(indent, vars[k]);
    let start = var_lines(indent, pre).len() as int;
    let line = var_line(indent, vars[k]);
    assert(var_lines(indent, vars) == var_lines(indent, pre) + (line + var_lines(indent, rest)));
    assert(var_lines(indent, vars).subrange(start, start + line.len()) =~= line);
}

/// Law: the role lines of two lists one after the other are those of the first list
/// followed by those of the second, and one element gives exactly its own part.
pub proof fn law_role_lines_concat(a: Seq<Seq<char>>, b: Seq<Seq<char>>)
    ensures
        role_lines(a + b) == role_lines(a) + role_lines(b),
    decreases b.len(),
{
    if b.len() == 0 {
        assert(a + b =~= a);
        assert(role_lines(b) == Seq::<char>::empty());
        assert(role_lines(a) + Seq::<char>::empty() =~= role_lines(a));
    } else {
        law_role_lines_concat(a, b.drop_last());
        assert((a + b).drop_last() =~= a + b.drop_last());
        assert((a + b).last() == b.last());
        assert(role_lines(a + b) =~= role_lines(a) + role_lines(b));
    }
}

/// Law: one element gives exactly its own part.
pub proof fn law_role_lines_single(x: Seq<char>)
    ensures
        role_lines(seq![x]) == "    - "@ + x + "\n"@,
{
    assert(seq![x].drop_last() =~= Seq::<Seq<char>>::empty());
    assert(role_lines(seq![x].drop_last()) == Seq::<char>::empty());
    assert(seq![x].last() == x);
    assert(role_lines(seq![x]) =~= "    - "@ + x + "\n"@);
}

/// Law: the member lines of two lists one after the other are those of the first list
/// followed by those of the second, and one element gives exactly its own part.
pub proof fn law_member_lines_concat(a: Seq<Seq<char>>, b: Seq<Seq<char>>)
    ensures
        member_lines(a + b) == member_lines(a) + member_lines(b),
    decreases b.len(),
{
    if b.len() == 0 {
        assert(a + b =~= a);
        assert(member_lines(b) == Seq::<char>::empty());
        assert(member_lines(a) + Seq::<char>::empty() =~= member_lines(a));
    } else {
        law_member_lines_concat(a, b.drop_last());
        assert((a + b).drop_last() =~= a + b.drop_last());
        assert((a + b).last() == b.last());
        assert(member_lines(a + b) =~= member_lines(a) + member_lines(b));
    }
}

/// Law: one element gives exactly its own part.
pub proof fn law_member_lines_single(x: Seq<char>)
    ensures
        member_lines(seq![x]) == "        "@ + x + ":\n"@,
{
    assert(seq![x].drop_last() =~= Seq::<Seq<char>>::empty());
    assert(member_lines(seq![x].drop_last()) == Seq::<char>::empty());
    assert(seq![x].last() == x);
    assert(member_lines(seq![x]) =~= "        "@ + x + ":\n"@);
}

/// Law: the host texts of two lists one after the other are those of the first list
/// followed by those of the second, and one element gives exactly its own part.
pub proof fn law_hosts_text_concat(a: Seq<Host>, b: Seq<Host>)
    ensures
        hosts_text(a + b) == hosts_text(a) + hosts_text(b),
    decreases b.len(),
{
    if b.len() == 0 {
        assert(a + b =~= a);
        assert(hosts_text(b) == Seq::<char>::empty());
        assert(hosts_text(a) + Seq::<char>::empty() =~= hosts_text(a));
    } else {
        law_hosts_text_concat(a, b.drop_last());
        assert((a + b).drop_last() =~= a + b.drop_last());
        assert((a + b).last() == b.last());
        assert(hosts_text(a + b) =~= hosts_text(a) + hosts_text(b));
    }
}

/// Law: one element gives exactly its own part.
pub proof fn law_hosts_text_single(x: Host)
    ensures
        hosts_text(seq![x]) == host_text(x),
{
    assert(seq![x].drop_last() =~= Seq::<Host>::empty());
    assert(hosts_text(seq![x].drop_last()) == Seq::<char>::empty());
    assert(seq![x].last() == x);
    assert(hosts_text(seq![x]) =~= host_text(x));
}

/// Law: the group texts of two lists one after the other are those of the first list
/// followed by those of the second, and one element gives exactly its own part.
pub proof fn law_groups_text_concat(a: Seq<Group>, b: Seq<Group>)
    ensures
        groups_text(a + b) == groups_text(a) + groups_text(b),
    decreases b.len(),
{
    if b.len() == 0 {
        assert(a + b =~= a);
        assert(groups_text(b) == Seq::<char>::empty());
        assert(groups_text(a) + Seq::<char>::empty() =~= groups_text(a));
    } else {
        law_groups_text_concat(a, b.drop_last());
        assert((a + b).drop_last() =~= a + b.drop_last());
        assert((a + b).last() == b.last());
        assert(groups_text(a + b) =~= groups_text(a) + groups_text(b));
    }
}

/// Law: one element gives exactly its own part.
pub proof fn law_groups_text_single(x: Group)
    ensures
        groups_text(seq![x]) == group_text(x),
{
    assert(seq![x].drop_last() =~= Seq::<Group>::empty());
    assert(groups_text(seq![x].drop_last()) == Seq::<char>::empty());
    assert(seq![x].last() == x);
    assert(groups_text(seq![x]) =~= group_text(x));
}

/// Law: the limit arguments of two target lists one after the other are those of
/// the first list followed by those of the second; one target gives `-l <target>`.
pub proof fn law_limit_args_concat(a: Seq<Seq<char>>, b: Seq<Seq<char>>)
    ensures
        limit_args(a + b) == limit_args(a) + limit_args(b),
        limit_args(b).len() == 2 * b.len(),
    decreases b.len(),
{
    if b.len() == 0 {
        assert(a + b =~= a);
        assert(limit_args(a) + Seq::<Seq<char>>::empty() =~= limit_args(a));
    } else {
        law_limit_args_concat(a, b.drop_last());
        assert((a + b).drop_last() =~= a + b.drop_last());
        assert((a + b).last() == b.last());
        assert(limit_args(a + b) =~= limit_args(a) + limit_args(b));
    }
}

/// Law: one target gives exactly `-l <target>`.
pub proof fn law_limit_args_single(x: Seq<char>)
    ensures
        limit_args(seq![x]) == seq!["-l"@, x],
{
    assert(seq![x].drop_last() =~= Seq::<Seq<char>>::empty());
    assert(limit_args(seq![x].drop_last()) == Seq::<Seq<char>>::empty());
    assert(limit_args(seq![x]) =~= seq!["-l"@, x]);
}

} // verus!
