//! Reading a Packer template from its HCL tree: variables, sources, provisioners,
//! the files the template depends on, and its description.
use crate::hcl_tree::{hcl_parse, parse_hcl, TreeAttr, TreeBlock, TreeBody, TreeItem};
use crate::packer_template::{
    build_deps, extract_build_dependencies, extract_provisioner_dependencies,
    extract_source_dependencies, opt_view, provisioner_deps, source_deps, vars_view, DepsView,
    Provisioner, ProvisionerView, Source, SourceView, Template, TemplateDependencies, TemplateView,
    VarType, Variable, VariableView,
};
use crate::seqs::{first_index, insert_entry, key_is, lemma_first_index_at, lemma_first_index_none};
use crate::string_map::pairs_view;
use crate::terraform_parse::{attribute_texts, body_variables, InfraError};
use crate::text::{
    chars_eq, chars_eq_str, chars_of, contains_exec, contains_seq, copy_string, find_exec, find_seq,
    slice_chars, split_char, split_char_exec, string_eq_str, string_of, trim, trim_char,
    trim_char_exec, trim_exec, views,
};
use vstd::prelude::*;

verus! {

/// One value of an enumeration list: trimmed, then without surrounding double and
/// single quotes.
pub open spec fn enum_value(p: Seq<char>) -> Seq<char> {
    trim_char(trim_char(trim(p), '"'), '\'')
}

/// The allowed values that a validation expression of the form
/// `contains(["a", "b"], var.x)` lists: the comma-separated items between the first
/// `[` and the first `]`, when the text mentions `contains(`, `[` and `]` and the
/// `[` comes first but not at the start.
pub open spec fn enum_validation(text: Seq<char>) -> Option<Seq<Seq<char>>> {
    if contains_seq(text, "contains("@) && contains_seq(text, "["@) && contains_seq(text, "]"@) {
        let start = match find_seq(text, "["@) {
            Some(i) => i,
            None => 0,
        };
        let end = match find_seq(text, "]"@) {
            Some(i) => i,
            None => text.len() as int,
        };
        if start < end && start > 0 {
            Some(split_char(text.subrange(start + 1, end), ',').map_values(|p: Seq<char>| enum_value(p)))
        } else {
            None
        }
    } else {
        None
    }
}

/// The enumeration values of a list of comma-separated items.
pub fn enum_values_list(inner: &[char]) -> (r: Vec<String>)
    ensures
        views(r@) == split_char(inner@, ',').map_values(|p: Seq<char>| enum_value(p)),
{
    let parts = split_char_exec(inner, ',');
    let ghost want = split_char(inner@, ',').map_values(|p: Seq<char>| enum_value(p));
    let mut out: Vec<String> = Vec::new();
    let mut i: usize = 0;
    while i < parts.len()
        invariant
            i <= parts.len(),
            parts@.len() == split_char(inner@, ',').len(),
            forall|k: int| 0 <= k < parts@.len() ==> #[trigger] parts@[k]@ == split_char(inner@, ',')[k],
            want == split_char(inner@, ',').map_values(|p: Seq<char>| enum_value(p)),
            views(out@) == want.take(i as int),
        decreases parts.len() - i,
    {
        assert(parts@[i as int]@ == split_char(inner@, ',')[i as int]);
        let t = trim_exec(parts[i].as_slice());
        let t = trim_char_exec(t.as_slice(), '"');
        let t = trim_char_exec(t.as_slice(), '\'');
        assert(t@ == want[i as int]);
        let ghost before = out@;
        out.push(string_of(t.as_slice()));
        assert(views(out@) =~= views(before).push(t@));
        i = i + 1;
        assert(views(out@) =~= want.take(i as int));
    }
    assert(want.take(i as int) =~= want);
    out
}

/// The allowed values listed by a `validation` attribute, read from its expression text.
pub fn parse_enum_validation(attr: &TreeAttr) -> (r: Option<Vec<String>>)
    ensures
        match enum_validation(attr.expr.text@) {
            Some(vals) => r matches Some(v) && views(v@) == vals,
            None => r is None,
        },
{
    let t = chars_of(attr.expr.text.as_str());
    let call = chars_of("contains(");
    let open = chars_of("[");
    let close = chars_of("]");
    if contains_exec(t.as_slice(), call.as_slice()) && contains_exec(t.as_slice(), open.as_slice())
        && contains_exec(t.as_slice(), close.as_slice()) {
        let start = match find_exec(t.as_slice(), open.as_slice()) {
            Some(i) => i,
            None => 0,
        };
        let end = match find_exec(t.as_slice(), close.as_slice()) {
            Some(i) => i,
            None => t.len(),
        };
        if start < end && start > 0 {
            let inner = slice_chars(t.as_slice(), start + 1, end);
            Some(enum_values_list(inner.as_slice()))
        } else {
            None
        }
    } else {
        None
    }
}

/// A variable with nothing declared: untyped, required, not sensitive.
pub open spec fn fresh_variable() -> VariableView {
    VariableView {
        var_type: None,
        default: None,
        description: None,
        required: true,
        enum_values: None,
        sensitive: false,
    }
}

/// The effect of one attribute of a `variable` block, by its key and expression text.
pub open spec fn variable_attr(v: VariableView, a: TreeAttr) -> VariableView {
    let k = a.key@;
    let t = a.expr.text@;
    if k == "type"@ {
        VariableView { var_type: Some(t), ..v }
    } else if k == "default"@ {
        VariableView { default: Some(t), required: false, ..v }
    } else if k == "description"@ {
        VariableView { description: Some(t), ..v }
    } else if k == "sensitive"@ {
        VariableView { sensitive: t == "true"@, ..v }
    } else if k == "validation"@ {
        match enum_validation(t) {
            Some(vals) => VariableView { enum_values: Some(vals), ..v },
            None => v,
        }
    } else {
        v
    }
}

/// The variable that the attributes of a `variable` block declare, in order.
pub open spec fn variable_of(items: Seq<TreeItem>) -> VariableView
    decreases items.len(),
{
    if items.len() == 0 {
        fresh_variable()
    } else {
        match items.last() {
            TreeItem::Attribute(a) => variable_attr(variable_of(items.drop_last()), a),
            TreeItem::Block(_) => variable_of(items.drop_last()),
        }
    }
}

/// Reads a `variable "name"` block: its name and the variable its attributes declare.
pub fn parse_variable(block: &TreeBlock) -> (r: Result<Option<(String, Variable)>, InfraError>)
    ensures
        block.labels@.len() == 0 ==> (r matches Err(InfraError::Template(m)) && m@ == "Variable missing name"@),
        block.labels@.len() > 0 ==> (r matches Ok(Some(p)) && p.0@ == block.labels@[0]@
            && p.1@ == variable_of(block.body.structures@)),
{
    if block.labels.len() == 0 {
        return Err(InfraError::Template(String::from_str("Variable missing name")));
    }
    let name = copy_string(&block.labels[0]);
    let mut var = Variable {
        var_type: VarType::String,
        default: None,
        description: None,
        required: true,
        enum_values: None,
        sensitive: false,
    };
    let items = &block.body.structures;
    let mut i: usize = 0;
    while i < items.len()
        invariant
            i <= items.len(),
            var@ == variable_of(items@.take(i as int)),
        decreases items.len() - i,
    {
        proof {
            assert(items@.take(i + 1).drop_last() =~= items@.take(i as int));
        }
        match &items[i] {
            TreeItem::Attribute(a) => {
                let k = chars_of(a.key.as_str());
                if chars_eq_str(k.as_slice(), "type") {
                    var.var_type = VarType::Declared(copy_string(&a.expr.text));
                } else if chars_eq_str(k.as_slice(), "default") {
                    var.default = Some(copy_string(&a.expr.text));
                    var.required = false;
                } else if chars_eq_str(k.as_slice(), "description") {
                    var.description = Some(copy_string(&a.expr.text));
                } else if chars_eq_str(k.as_slice(), "sensitive") {
                    var.sensitive = string_eq_str(&a.expr.text, "true");
                } else if chars_eq_str(k.as_slice(), "validation") {
                    match parse_enum_validation(a) {
                        Some(vals) => {
                            var.enum_values = Some(vals);
                        },
                        None => {},
                    }
                }
            },
            TreeItem::Block(_) => {},
        }
        i = i + 1;
    }
    assert(items@.take(items@.len() as int) =~= items@);
    Ok(Some((name, var)))
}

/// The source that a `source "type" "name"` block describes.
pub open spec fn source_of(b: TreeBlock) -> SourceView {
    SourceView { source_type: b.labels@[0]@, name: b.labels@[1]@, config: attribute_texts(b.body.structures@) }
}

/// Reads a `source "type" "name"` block; a block with fewer than two labels is an error.
pub fn parse_source(block: &TreeBlock) -> (r: Result<Option<Source>, InfraError>)
    ensures
        block.labels@.len() < 2 ==> (r matches Err(InfraError::Template(m)) && m@ == "Invalid source block"@),
        block.labels@.len() >= 2 ==> (r matches Ok(Some(x)) && x@ == source_of(*block)),
        r matches Ok(Some(x)) ==> crate::seqs::distinct_keys(x@.config),
{
    proof {
        crate::terraform_parse::law_attribute_keys_named_once(block.body.structures@);
    }
    if block.labels.len() < 2 {
        return Err(InfraError::Template(String::from_str("Invalid source block")));
    }
    let config = body_variables(&block.body);
    Ok(Some(Source {
        source_type: copy_string(&block.labels[0]),
        name: copy_string(&block.labels[1]),
        config,
    }))
}

/// The provisioner that a `provisioner "type"` block describes.
pub open spec fn provisioner_of(b: TreeBlock) -> ProvisionerView {
    ProvisionerView { provisioner_type: b.labels@[0]@, config: attribute_texts(b.body.structures@) }
}

/// Reads a `provisioner "type"` block; a block without a label is an error.
pub fn parse_provisioner(block: &TreeBlock) -> (r: Result<Option<Provisioner>, InfraError>)
    ensures
        block.labels@.len() == 0 ==> (r matches Err(InfraError::Template(m)) && m@ == "Provisioner missing type"@),
        block.labels@.len() > 0 ==> (r matches Ok(Some(x)) && x@ == provisioner_of(*block)),
        r matches Ok(Some(x)) ==> crate::seqs::distinct_keys(x@.config),
{
    proof {
        crate::terraform_parse::law_attribute_keys_named_once(block.body.structures@);
    }
    if block.labels.len() == 0 {
        return Err(InfraError::Template(String::from_str("Provisioner missing type")));
    }
    let config = body_variables(&block.body);
    Ok(Some(Provisioner { provisioner_type: copy_string(&block.labels[0]), config }))
}

/// Stores `v` under `k`: replaces the variable of an existing name, else appends.
fn insert_variable(m: &mut Vec<(String, Variable)>, k: String, v: Variable)
    ensures
        vars_view(final(m)@) == insert_entry(vars_view(old(m)@), k@, v@),
{
    let ghost s = vars_view(m@);
    let kc = chars_of(k.as_str());
    let mut i: usize = 0;
    while i < m.len()
        invariant
            i <= m.len(),
            m@ == old(m)@,
            s == vars_view(m@),
            kc@ == k@,
            forall|j: int| 0 <= j < i ==> !key_is::<VariableView>(k@)(s[j]),
        decreases m.len() - i,
    {
        let c = chars_of(m[i].0.as_str());
        if chars_eq(c.as_slice(), kc.as_slice()) {
            proof {
                lemma_first_index_at(s, key_is::<VariableView>(k@), i as int);
            }
            m.set(i, (k, v));
            assert(vars_view(m@) =~= insert_entry(s, k@, v@));
            return;
        }
        i = i + 1;
    }
    proof {
        lemma_first_index_none(s, key_is::<VariableView>(k@));
    }
    m.push((k, v));
    assert(vars_view(m@) =~= insert_entry(s, k@, v@));
}

/// What a template holds so far while its top-level blocks are read.
pub struct TemplateParts {
    pub variables: Seq<(Seq<char>, VariableView)>,
    pub sources: Seq<SourceView>,
    pub provisioners: Seq<ProvisionerView>,
    pub dependencies: DepsView,
    pub description: Option<Seq<char>>,
}

/// Nothing read yet.
pub open spec fn no_parts() -> TemplateParts {
    TemplateParts {
        variables: Seq::empty(),
        sources: Seq::empty(),
        provisioners: Seq::empty(),
        dependencies: DepsView {
            script_files: Seq::empty(),
            floppy_files: Seq::empty(),
            provisioner_files: Seq::empty(),
            http_directories: Seq::empty(),
        },
        description: None,
    }
}

/// The effect of one top-level block, or the message of the error it causes.
/// A `variable` named `description` with a default also gives the template's
/// description.
pub open spec fn template_block(p: TemplateParts, b: TreeBlock) -> Result<TemplateParts, Seq<char>> {
    let id = b.identifier@;
    if id == "variable"@ {
        if b.labels@.len() == 0 {
            Err("Variable missing name"@)
        } else {
            let name = b.labels@[0]@;
            let v = variable_of(b.body.structures@);
            let description = if name == "description"@ && v.default is Some {
                v.default
            } else {
                p.description
            };
            Ok(TemplateParts { variables: insert_entry(p.variables, name, v), description, ..p })
        }
    } else if id == "source"@ {
        if b.labels@.len() < 2 {
            Err("Invalid source block"@)
        } else {
            Ok(TemplateParts {
                sources: p.sources.push(source_of(b)),
                dependencies: source_deps(b.body.structures@, p.dependencies),
                ..p
            })
        }
    } else if id == "build"@ {
        Ok(TemplateParts { dependencies: build_deps(b.body.structures@, p.dependencies), ..p })
    } else if id == "provisioner"@ {
        if b.labels@.len() == 0 {
            Err("Provisioner missing type"@)
        } else {
            Ok(TemplateParts {
                provisioners: p.provisioners.push(provisioner_of(b)),
                dependencies: provisioner_deps(b, p.dependencies),
                ..p
            })
        }
    } else {
        Ok(p)
    }
}

/// The parts of a template after its top-level items, in order; the first error stops.
pub open spec fn template_parts(items: Seq<TreeItem>) -> Result<TemplateParts, Seq<char>>
    decreases items.len(),
{
    if items.len() == 0 {
        Ok(no_parts())
    } else {
        match template_parts(items.drop_last()) {
            Err(m) => Err(m),
            Ok(p) => match items.last() {
                TreeItem::Block(b) => template_block(p, b),
                TreeItem::Attribute(_) => Ok(p),
            },
        }
    }
}

/// A template with these parts and this text, not yet named nor placed.
pub open spec fn template_with(p: TemplateParts, content: Seq<char>) -> TemplateView {
    TemplateView {
        name: Seq::empty(),
        path: None,
        variables: p.variables,
        sources: p.sources,
        provisioners: p.provisioners,
        content,
        dependencies: p.dependencies,
        description: p.description,
    }
}

proof fn lemma_parts_err(items: Seq<TreeItem>, i: int, j: int)
    requires
        0 <= i <= j <= items.len(),
        template_parts(items.take(i)) is Err,
    ensures
        template_parts(items.take(j)) == template_parts(items.take(i)),
    decreases j - i,
{
    if j > i {
        lemma_parts_err(items, i, j - 1);
        assert(items.take(j).drop_last() =~= items.take(j - 1));
    }
}

/// The exec state of a template being read holds the parts `p`.
spec fn holds_parts(
    p: TemplateParts,
    variables: Seq<(String, Variable)>,
    sources: Seq<Source>,
    provisioners: Seq<Provisioner>,
    deps: DepsView,
    description: Option<String>,
) -> bool {
    &&& vars_view(variables) == p.variables
    &&& sources.map_values(|x: Source| x@) == p.sources
    &&& provisioners.map_values(|x: Provisioner| x@) == p.provisioners
    &&& deps == p.dependencies
    &&& opt_view(description) == p.description
}

/// Reads the top-level blocks of a template's HCL tree; `content` is its text.
pub fn template_from_body(body: &TreeBody, content: &str) -> (r: Result<Template, InfraError>)
    ensures
        match template_parts(body.structures@) {
            Ok(p) => r matches Ok(t) && t@ == template_with(p, content@),
            Err(m) => r matches Err(InfraError::Template(s)) && s@ == m,
        },
        r matches Ok(t) ==> t@.names_once(),
{
    proof {
        law_template_keys_named_once(body.structures@, content@);
    }
    let items = &body.structures;
    let mut variables: Vec<(String, Variable)> = Vec::new();
    let mut sources: Vec<Source> = Vec::new();
    let mut provisioners: Vec<Provisioner> = Vec::new();
    let mut deps = TemplateDependencies::new();
    let mut description: Option<String> = None;
    proof {
        assert(items@.take(0) =~= Seq::<TreeItem>::empty());
        assert(vars_view(variables@) =~= Seq::empty());
        assert(sources@.map_values(|x: Source| x@) =~= Seq::empty());
        assert(provisioners@.map_values(|x: Provisioner| x@) =~= Seq::empty());
        assert(deps@.script_files =~= Seq::empty());
        assert(deps@.floppy_files =~= Seq::empty());
        assert(deps@.provisioner_files =~= Seq::empty());
        assert(deps@.http_directories =~= Seq::empty());
    }
    let mut i: usize = 0;
    while i < items.len()
        invariant
            i <= items.len(),
            items@ == body.structures@,
            template_parts(items@.take(i as int)) is Ok,
            holds_parts(template_parts(items@.take(i as int))->Ok_0, variables@, sources@, provisioners@,
                deps@, description),
        decreases items.len() - i,
    {
        proof {
            assert(items@.take(i + 1).drop_last() =~= items@.take(i as int));
        }
        let ghost p = template_parts(items@.take(i as int))->Ok_0;
        match &items[i] {
            TreeItem::Block(b) => {
                let id = chars_of(b.identifier.as_str());
                if chars_eq_str(id.as_slice(), "variable") {
                    match parse_variable(b) {
                        Ok(Some((name, var))) => {
                            if string_eq_str(&name, "description") {
                                match &var.default {
                                    Some(d) => {
                                        description = Some(copy_string(d));
                                    },
                                    None => {},
                                }
                            }
                            insert_variable(&mut variables, name, var);
                        },
                        Ok(None) => {},
                        Err(e) => {
                            proof {
                                assert(template_block(p, *b) == Err::<TemplateParts, Seq<char>>("Variable missing name"@));
                                lemma_parts_err(items@, i + 1, items@.len() as int);
                                assert(items@.take(items@.len() as int) =~= items@);
                            }
                            return Err(e);
                        },
                    }
                } else if chars_eq_str(id.as_slice(), "source") {
                    match parse_source(b) {
                        Ok(Some(src)) => {
                            let _ = extract_source_dependencies(b, &mut deps);
                            sources.push(src);
                            assert(sources@.map_values(|x: Source| x@) =~= p.sources.push(source_of(*b)));
                        },
                        Ok(None) => {},
                        Err(e) => {
                            proof {
                                assert(template_block(p, *b) == Err::<TemplateParts, Seq<char>>("Invalid source block"@));
                                lemma_parts_err(items@, i + 1, items@.len() as int);
                                assert(items@.take(items@.len() as int) =~= items@);
                            }
                            return Err(e);
                        },
                    }
                } else if chars_eq_str(id.as_slice(), "build") {
                    let _ = extract_build_dependencies(b, &mut deps);
                } else if chars_eq_str(id.as_slice(), "provisioner") {
                    match parse_provisioner(b) {
                        Ok(Some(prov)) => {
                            let _ = extract_provisioner_dependencies(b, &mut deps);
                            provisioners.push(prov);
                            assert(provisioners@.map_values(|x: Provisioner| x@) =~= p.provisioners.push(
                                provisioner_of(*b),
                            ));
                        },
                        Ok(None) => {},
                        Err(e) => {
                            proof {
                                assert(template_block(p, *b) == Err::<TemplateParts, Seq<char>>("Provisioner missing type"@));
                                lemma_parts_err(items@, i + 1, items@.len() as int);
                                assert(items@.take(items@.len() as int) =~= items@);
                            }
                            return Err(e);
                        },
                    }
                }
            },
            TreeItem::Attribute(_) => {},
        }
        i = i + 1;
    }
    assert(items@.take(items@.len() as int) =~= items@);
    Ok(Template {
        name: String::new(),
        path: None,
        variables,
        sources,
        provisioners,
        content: String::from_str(content),
        dependencies: deps,
        description,
    })
}

/// Parses a template's HCL text and reads its top-level blocks; text that HCL
/// rejects is an `HclParse` error.
pub fn parse_template(content: &str) -> (r: Result<Template, InfraError>)
    ensures
        match hcl_parse(content@) {
            None => r matches Err(InfraError::HclParse(m)) && m@ == crate::hcl_tree::hcl_error_text(content@),
            Some(b) => match template_parts(b.structures@) {
                Ok(p) => r matches Ok(t) && t@ == template_with(p, content@),
                Err(m) => r matches Err(InfraError::Template(s)) && s@ == m,
            },
        },
        r matches Ok(t) ==> t@.names_once(),
{
    match parse_hcl(content) {
        Ok(body) => template_from_body(&body, content),
        Err(m) => Err(InfraError::HclParse(m)),
    }
}

/// Law: a template names each of its variables once (a later `variable` block of the
/// same name replaces the earlier one), and the settings of each of its sources and
/// provisioners name each key once.
pub proof fn law_template_keys_named_once(items: Seq<TreeItem>, content: Seq<char>)
    ensures
        template_parts(items) matches Ok(p) ==> template_with(p, content).names_once(),
    decreases items.len(),
{
    if items.len() > 0 {
        law_template_keys_named_once(items.drop_last(), content);
        match template_parts(items.drop_last()) {
            Ok(p) => match items.last() {
                TreeItem::Block(b) => {
                    crate::terraform_parse::law_attribute_keys_named_once(b.body.structures@);
                    if b.identifier@ == "variable"@ && b.labels@.len() > 0 {
                        crate::seqs::lemma_insert_entry_distinct(p.variables, b.labels@[0]@, variable_of(b.body.structures@));
                    }
                    match template_parts(items) {
                        Ok(q) => {
                            assert forall|k: int| 0 <= k < q.sources.len() implies crate::seqs::distinct_keys(
                                #[trigger] q.sources[k].config,
                            ) by {
                                if k < p.sources.len() {
                                    assert(q.sources[k] == p.sources[k]);
                                    assert(template_with(p, content).sources[k] == p.sources[k]);
                                }
                            }
                            assert forall|k: int| 0 <= k < q.provisioners.len() implies crate::seqs::distinct_keys(
                                #[trigger] q.provisioners[k].config,
                            ) by {
                                if k < p.provisioners.len() {
                                    assert(q.provisioners[k] == p.provisioners[k]);
                                    assert(template_with(p, content).provisioners[k] == p.provisioners[k]);
                                }
                            }
                        },
                        Err(_) => {},
                    }
                },
                TreeItem::Attribute(_) => {},
            },
            Err(_) => {},
        }
    }
}

} // verus!
