//! Packer templates in HCL: variables, sources, provisioners, and the files a
//! template depends on.
use crate::hcl_tree::{hcl_parse, parse_hcl, ExprKind, TreeBlock, TreeBody, TreeExpr, TreeItem};
use crate::paths::{file_name, file_name_string};
use crate::seqs::insert_entry;
use crate::string_map::{pairs_view, map_insert};
use crate::terraform_parse::{attribute_texts, body_variables, InfraError};
use crate::text::{
    chars_eq, chars_eq_str, chars_of, contains_exec, contains_seq, copy_string, ends_with,
    ends_with_exec, find_exec, find_seq, slice_chars, split_char, split_char_exec, starts_with,
    starts_with_exec, string_of, trim, trim_char, trim_char_exec, trim_exec, views,
};
use vstd::prelude::*;

verus! {

/// The declared type of a variable.
#[derive(Debug, Clone)]
pub enum VarType {
    /// No type declared.
    String,
    /// The text of the declared type expression.
    Declared(String),
}

/// A template variable.
#[derive(Debug, Clone)]
pub struct Variable {
    pub var_type: VarType,
    pub default: Option<String>,
    pub description: Option<String>,
    pub required: bool,
    pub enum_values: Option<Vec<String>>,
    pub sensitive: bool,
}

/// A variable as character sequences.
pub struct VariableView {
    pub var_type: Option<Seq<char>>,
    pub default: Option<Seq<char>>,
    pub description: Option<Seq<char>>,
    pub required: bool,
    pub enum_values: Option<Seq<Seq<char>>>,
    pub sensitive: bool,
}

/// The view of an optional string.
pub open spec fn opt_view(o: Option<String>) -> Option<Seq<char>> {
    match o {
        Some(s) => Some(s@),
        None => None,
    }
}

impl View for Variable {
    type V = VariableView;

    open spec fn view(&self) -> VariableView {
        VariableView {
            var_type: match self.var_type {
                VarType::String => None,
                VarType::Declared(t) => Some(t@),
            },
            default: opt_view(self.default),
            description: opt_view(self.description),
            required: self.required,
            enum_values: match self.enum_values {
                Some(v) => Some(views(v@)),
                None => None,
            },
            sensitive: self.sensitive,
        }
    }
}

/// A `source "type" "name"` block.
#[derive(Debug, Clone)]
pub struct Source {
    pub source_type: String,
    pub name: String,
    pub config: Vec<(String, String)>,
}

/// A `provisioner "type"` block.
#[derive(Debug, Clone)]
pub struct Provisioner {
    pub provisioner_type: String,
    pub config: Vec<(String, String)>,
}

/// A source as character sequences.
pub struct SourceView {
    pub source_type: Seq<char>,
    pub name: Seq<char>,
    pub config: Seq<(Seq<char>, Seq<char>)>,
}

impl View for Source {
    type V = SourceView;

    open spec fn view(&self) -> SourceView {
        SourceView { source_type: self.source_type@, name: self.name@, config: pairs_view(self.config@) }
    }
}

/// A provisioner as character sequences.
pub struct ProvisionerView {
    pub provisioner_type: Seq<char>,
    pub config: Seq<(Seq<char>, Seq<char>)>,
}

impl View for Provisioner {
    type V = ProvisionerView;

    open spec fn view(&self) -> ProvisionerView {
        ProvisionerView { provisioner_type: self.provisioner_type@, config: pairs_view(self.config@) }
    }
}

/// The files a template refers to, by file name, each listed once.
#[derive(Debug, Clone)]
pub struct TemplateDependencies {
    pub script_files: Vec<String>,
    pub floppy_files: Vec<String>,
    pub provisioner_files: Vec<String>,
    pub http_directories: Vec<String>,
}

/// The dependency lists as character sequences.
pub struct DepsView {
    pub script_files: Seq<Seq<char>>,
    pub floppy_files: Seq<Seq<char>>,
    pub provisioner_files: Seq<Seq<char>>,
    pub http_directories: Seq<Seq<char>>,
}

impl View for TemplateDependencies {
    type V = DepsView;

    open spec fn view(&self) -> DepsView {
        DepsView {
            script_files: views(self.script_files@),
            floppy_files: views(self.floppy_files@),
            provisioner_files: views(self.provisioner_files@),
            http_directories: views(self.http_directories@),
        }
    }
}

/// A parsed template.
#[derive(Debug, Clone)]
pub struct Template {
    pub name: String,
    pub path: Option<String>,
    pub variables: Vec<(String, Variable)>,
    pub sources: Vec<Source>,
    pub provisioners: Vec<Provisioner>,
    pub content: String,
    pub dependencies: TemplateDependencies,
    pub description: Option<String>,
}

/// A template as character sequences.
pub struct TemplateView {
    pub name: Seq<char>,
    pub path: Option<Seq<char>>,
    pub variables: Seq<(Seq<char>, VariableView)>,
    pub sources: Seq<SourceView>,
    pub provisioners: Seq<ProvisionerView>,
    pub content: Seq<char>,
    pub dependencies: DepsView,
    pub description: Option<Seq<char>>,
}

impl TemplateView {
    /// Each variable name occurs once, and the settings of each source and of each
    /// provisioner name each key once.
    pub open spec fn names_once(self) -> bool {
        &&& crate::seqs::distinct_keys(self.variables)
        &&& forall|k: int| 0 <= k < self.sources.len() ==> crate::seqs::distinct_keys(#[trigger] self.sources[k].config)
        &&& forall|k: int|
            0 <= k < self.provisioners.len() ==> crate::seqs::distinct_keys(#[trigger] self.provisioners[k].config)
    }
}

/// The variables of a template as names and variable views.
pub open spec fn vars_view(v: Seq<(String, Variable)>) -> Seq<(Seq<char>, VariableView)> {
    v.map_values(|e: (String, Variable)| (e.0@, e.1@))
}

impl View for Template {
    type V = TemplateView;

    open spec fn view(&self) -> TemplateView {
        TemplateView {
            name: self.name@,
            path: opt_view(self.path),
            variables: vars_view(self.variables@),
            sources: self.sources@.map_values(|x: Source| x@),
            provisioners: self.provisioners@.map_values(|x: Provisioner| x@),
            content: self.content@,
            dependencies: self.dependencies@,
            description: opt_view(self.description),
        }
    }
}

/// `s` with `x` appended unless it is already there.
pub open spec fn set_add(s: Seq<Seq<char>>, x: Seq<char>) -> Seq<Seq<char>> {
    if s.contains(x) {
        s
    } else {
        s.push(x)
    }
}

/// `s` with each of `xs` added in order.
pub open spec fn set_add_all(s: Seq<Seq<char>>, xs: Seq<Seq<char>>) -> Seq<Seq<char>>
    decreases xs.len(),
{
    if xs.len() == 0 {
        s
    } else {
        set_add(set_add_all(s, xs.drop_last()), xs.last())
    }
}

/// Adds `x` to a list of distinct strings.
fn list_add(v: &mut Vec<String>, x: String)
    ensures
        views(final(v)@) == set_add(views(old(v)@), x@),
{
    let xc = chars_of(x.as_str());
    let mut i: usize = 0;
    while i < v.len()
        invariant
            i <= v.len(),
            v@ == old(v)@,
            xc@ == x@,
            forall|k: int| 0 <= k < i ==> v@[k]@ != x@,
        decreases v.len() - i,
    {
        let c = chars_of(v[i].as_str());
        assert(c@ == v@[i as int]@);
        if chars_eq(c.as_slice(), xc.as_slice()) {
            proof {
                assert(views(v@)[i as int] == x@);
            }
            return;
        }
        i = i + 1;
    }
    proof {
        assert(!views(v@).contains(x@)) by {
            if views(v@).contains(x@) {
                let k = choose|k: int| 0 <= k < views(v@).len() && views(v@)[k] == x@;
                assert(v@[k]@ == x@);
            }
        }
    }
    v.push(x);
    assert(views(v@) =~= views(old(v)@).push(x@));
}

impl TemplateDependencies {
    /// No dependencies.
    pub fn new() -> (r: Self)
        ensures
            r@.script_files.len() == 0 && r@.floppy_files.len() == 0 && r@.provisioner_files.len() == 0
                && r@.http_directories.len() == 0,
    {
        TemplateDependencies {
            script_files: Vec::new(),
            floppy_files: Vec::new(),
            provisioner_files: Vec::new(),
            http_directories: Vec::new(),
        }
    }

    /// Whether the template refers to script files.
    pub fn has_scripts(&self) -> (r: bool)
        ensures
            r == (self.script_files@.len() > 0),
    {
        self.script_files.len() > 0
    }

    /// Whether the template refers to floppy files.
    pub fn has_floppy(&self) -> (r: bool)
        ensures
            r == (self.floppy_files@.len() > 0),
    {
        self.floppy_files.len() > 0
    }

    /// Whether the template refers to provisioner files.
    pub fn has_provisioners(&self) -> (r: bool)
        ensures
            r == (self.provisioner_files@.len() > 0),
    {
        self.provisioner_files.len() > 0
    }

    /// Whether the template refers to HTTP directories.
    pub fn has_http(&self) -> (r: bool)
        ensures
            r == (self.http_directories@.len() > 0),
    {
        self.http_directories.len() > 0
    }
}

/// The string an expression holds: a plain string's value, or the text of another
/// expression without its surrounding double quotes when it is quoted.
pub open spec fn string_value(e: TreeExpr) -> Option<Seq<char>> {
    match e.kind {
        ExprKind::Str(s) => Some(s@),
        _ => if starts_with(e.text@, "\""@) && ends_with(e.text@, "\""@) {
            Some(trim_char(e.text@, '"'))
        } else {
            None
        },
    }
}

/// The string an expression holds, if any.
pub fn extract_string_value(e: &TreeExpr) -> (r: Option<String>)
    ensures
        match string_value(*e) {
            Some(s) => r matches Some(v) && v@ == s,
            None => r is None,
        },
{
    match &e.kind {
        ExprKind::Str(s) => Some(copy_string(s)),
        _ => {
            let t = chars_of(e.text.as_str());
            let q = chars_of("\"");
            if starts_with_exec(t.as_slice(), q.as_slice()) && ends_with_exec(t.as_slice(), q.as_slice()) {
                let v = trim_char_exec(t.as_slice(), '"');
                Some(string_of(v.as_slice()))
            } else {
                None
            }
        },
    }
}

/// The file name of the path an expression holds.
pub open spec fn file_of(e: TreeExpr) -> Option<Seq<char>> {
    match string_value(e) {
        Some(p) => file_name(p),
        None => None,
    }
}

/// The file names of the paths that the expressions hold, in order.
pub open spec fn files_of(items: Seq<TreeExpr>) -> Seq<Seq<char>>
    decreases items.len(),
{
    if items.len() == 0 {
        Seq::empty()
    } else {
        let prev = files_of(items.drop_last());
        match file_of(items.last()) {
            Some(n) => prev.push(n),
            None => prev,
        }
    }
}

/// The file name of the path an expression holds.
fn file_of_exec(e: &TreeExpr) -> (r: Option<String>)
    ensures
        match file_of(*e) {
            Some(n) => r matches Some(v) && v@ == n,
            None => r is None,
        },
{
    match extract_string_value(e) {
        Some(p) => file_name_string(p.as_str()),
        None => None,
    }
}

/// Adds the file names of the paths in `items` to `v`.
fn add_files(v: &mut Vec<String>, items: &Vec<TreeExpr>)
    ensures
        views(final(v)@) == set_add_all(views(old(v)@), files_of(items@)),
{
    let mut i: usize = 0;
    while i < items.len()
        invariant
            i <= items.len(),
            views(v@) == set_add_all(views(old(v)@), files_of(items@.take(i as int))),
        decreases items.len() - i,
    {
        proof {
            assert(items@.take(i + 1).drop_last() =~= items@.take(i as int));
        }
        let ghost before = files_of(items@.take(i as int));
        match file_of_exec(&items[i]) {
            Some(n) => {
                proof {
                    assert(files_of(items@.take(i + 1)) == before.push(n@));
                    assert(before.push(n@).drop_last() =~= before);
                }
                list_add(v, n);
            },
            None => {},
        }
        i = i + 1;
    }
    assert(items@.take(items@.len() as int) =~= items@);
}

/// The dependencies after the attributes of a `source` block: `http_directory` adds
/// its string, `floppy_files` adds the file names of its list.
pub open spec fn source_deps(items: Seq<TreeItem>, d: DepsView) -> DepsView
    decreases items.len(),
{
    if items.len() == 0 {
        d
    } else {
        let prev = source_deps(items.drop_last(), d);
        match items.last() {
            TreeItem::Attribute(a) => if a.key@ == "http_directory"@ {
                match string_value(a.expr) {
                    Some(dir) => DepsView { http_directories: set_add(prev.http_directories, dir), ..prev },
                    None => prev,
                }
            } else if a.key@ == "floppy_files"@ {
                match a.expr.kind {
                    ExprKind::Array(xs) => DepsView { floppy_files: set_add_all(prev.floppy_files, files_of(xs@)), ..prev },
                    _ => prev,
                }
            } else {
                prev
            },
            TreeItem::Block(_) => prev,
        }
    }
}

/// Records the directories and floppy files that a `source` block refers to.
pub fn extract_source_dependencies(block: &TreeBlock, deps: &mut TemplateDependencies) -> (r: Result<(), InfraError>)
    ensures
        r is Ok,
        final(deps)@ == source_deps(block.body.structures@, old(deps)@),
{
    let items = &block.body.structures;
    let mut i: usize = 0;
    while i < items.len()
        invariant
            i <= items.len(),
            deps@ == source_deps(items@.take(i as int), old(deps)@),
        decreases items.len() - i,
    {
        proof {
            assert(items@.take(i + 1).drop_last() =~= items@.take(i as int));
        }
        match &items[i] {
            TreeItem::Attribute(a) => {
                let k = chars_of(a.key.as_str());
                if chars_eq_str(k.as_slice(), "http_directory") {
                    match extract_string_value(&a.expr) {
                        Some(dir) => list_add(&mut deps.http_directories, dir),
                        None => {},
                    }
                } else if chars_eq_str(k.as_slice(), "floppy_files") {
                    match &a.expr.kind {
                        ExprKind::Array(xs) => add_files(&mut deps.floppy_files, xs),
                        _ => {},
                    }
                }
            },
            TreeItem::Block(_) => {},
        }
        i = i + 1;
    }
    assert(items@.take(items@.len() as int) =~= items@);
    Ok(())
}

/// The dependencies after the attributes of a shell provisioner: `scripts` adds the
/// file names of its list, `script` the file name of its path.
pub open spec fn shell_deps(items: Seq<TreeItem>, d: DepsView) -> DepsView
    decreases items.len(),
{
    if items.len() == 0 {
        d
    } else {
        let prev = shell_deps(items.drop_last(), d);
        match items.last() {
            TreeItem::Attribute(a) => if a.key@ == "scripts"@ {
                match a.expr.kind {
                    ExprKind::Array(xs) => DepsView { script_files: set_add_all(prev.script_files, files_of(xs@)), ..prev },
                    _ => prev,
                }
            } else if a.key@ == "script"@ {
                match file_of(a.expr) {
                    Some(n) => DepsView { script_files: set_add(prev.script_files, n), ..prev },
                    None => prev,
                }
            } else {
                prev
            },
            TreeItem::Block(_) => prev,
        }
    }
}

/// The dependencies after the attributes of an ansible provisioner: `playbook_file`
/// adds the file name of its path.
pub open spec fn ansible_deps(items: Seq<TreeItem>, d: DepsView) -> DepsView
    decreases items.len(),
{
    if items.len() == 0 {
        d
    } else {
        let prev = ansible_deps(items.drop_last(), d);
        match items.last() {
            TreeItem::Attribute(a) => if a.key@ == "playbook_file"@ {
                match file_of(a.expr) {
                    Some(n) => DepsView { provisioner_files: set_add(prev.provisioner_files, n), ..prev },
                    None => prev,
                }
            } else {
                prev
            },
            TreeItem::Block(_) => prev,
        }
    }
}

/// The dependencies after a provisioner block, by its first label.
pub open spec fn provisioner_deps(b: TreeBlock, d: DepsView) -> DepsView {
    if b.labels@.len() == 0 {
        d
    } else {
        let t = b.labels@[0]@;
        if t == "shell"@ || t == "powershell"@ {
            shell_deps(b.body.structures@, d)
        } else if t == "ansible"@ {
            ansible_deps(b.body.structures@, d)
        } else {
            d
        }
    }
}

/// Records the scripts and playbooks that a provisioner block refers to.
pub fn extract_provisioner_dependencies(block: &TreeBlock, deps: &mut TemplateDependencies) -> (r: Result<(), InfraError>)
    ensures
        r is Ok,
        final(deps)@ == provisioner_deps(*block, old(deps)@),
{
    if block.labels.len() == 0 {
        return Ok(());
    }
    let t = chars_of(block.labels[0].as_str());
    let items = &block.body.structures;
    if chars_eq_str(t.as_slice(), "shell") || chars_eq_str(t.as_slice(), "powershell") {
        let mut i: usize = 0;
        while i < items.len()
            invariant
                i <= items.len(),
                deps@ == shell_deps(items@.take(i as int), old(deps)@),
            decreases items.len() - i,
        {
            proof {
                assert(items@.take(i + 1).drop_last() =~= items@.take(i as int));
            }
            match &items[i] {
                TreeItem::Attribute(a) => {
                    let k = chars_of(a.key.as_str());
                    if chars_eq_str(k.as_slice(), "scripts") {
                        match &a.expr.kind {
                            ExprKind::Array(xs) => add_files(&mut deps.script_files, xs),
                            _ => {},
                        }
                    } else if chars_eq_str(k.as_slice(), "script") {
                        match file_of_exec(&a.expr) {
                            Some(n) => list_add(&mut deps.script_files, n),
                            None => {},
                        }
                    }
                },
                TreeItem::Block(_) => {},
            }
            i = i + 1;
        }
        assert(items@.take(items@.len() as int) =~= items@);
    } else if chars_eq_str(t.as_slice(), "ansible") {
        let mut i: usize = 0;
        while i < items.len()
            invariant
                i <= items.len(),
                deps@ == ansible_deps(items@.take(i as int), old(deps)@),
            decreases items.len() - i,
        {
            proof {
                assert(items@.take(i + 1).drop_last() =~= items@.take(i as int));
            }
            match &items[i] {
                TreeItem::Attribute(a) => {
                    let k = chars_of(a.key.as_str());
                    if chars_eq_str(k.as_slice(), "playbook_file") {
                        match file_of_exec(&a.expr) {
                            Some(n) => list_add(&mut deps.provisioner_files, n),
                            None => {},
                        }
                    }
                },
                TreeItem::Block(_) => {},
            }
            i = i + 1;
        }
        assert(items@.take(items@.len() as int) =~= items@);
    }
    Ok(())
}

/// The dependencies after the nested provisioner blocks of a `build` block.
pub open spec fn build_deps(items: Seq<TreeItem>, d: DepsView) -> DepsView
    decreases items.len(),
{
    if items.len() == 0 {
        d
    } else {
        let prev = build_deps(items.drop_last(), d);
        match items.last() {
            TreeItem::Block(b) => if b.identifier@ == "provisioner"@ {
                provisioner_deps(b, prev)
            } else {
                prev
            },
            TreeItem::Attribute(_) => prev,
        }
    }
}

/// Records what the provisioners nested in a `build` block refer to.
pub fn extract_build_dependencies(block: &TreeBlock, deps: &mut TemplateDependencies) -> (r: Result<(), InfraError>)
    ensures
        r is Ok,
        final(deps)@ == build_deps(block.body.structures@, old(deps)@),
{
    let items = &block.body.structures;
    let mut i: usize = 0;
    while i < items.len()
        invariant
            i <= items.len(),
            deps@ == build_deps(items@.take(i as int), old(deps)@),
        decreases items.len() - i,
    {
        proof {
            assert(items@.take(i + 1).drop_last() =~= items@.take(i as int));
        }
        match &items[i] {
            TreeItem::Block(b) => {
                let id = chars_of(b.identifier.as_str());
                if chars_eq_str(id.as_slice(), "provisioner") {
                    let _ = extract_provisioner_dependencies(b, deps);
                }
            },
            TreeItem::Attribute(_) => {},
        }
        i = i + 1;
    }
    assert(items@.take(items@.len() as int) =~= items@);
    Ok(())
}

} // verus!
