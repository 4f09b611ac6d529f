//! Checking the variables a template needs against those provided, and what a
//! template file shows of itself before it is fully read.
use crate::hcl_tree::{hcl_parse, parse_hcl, TreeBody, TreeItem};
use crate::packer_parse::{template_from_body, template_parts, template_with, TemplateParts};
use crate::packer_template::{opt_view, vars_view, Template, TemplateDependencies, TemplateView, Variable, VariableView};
use crate::paths::{file_stem, file_stem_string};
use crate::seqs::{first_index, key_is, lookup, lemma_first_index};
use crate::string_map::{find_key, pairs_view};
use crate::terraform_parse::InfraError;
use crate::text::{
    append_str, chars_eq_str, chars_of, contains_exec, contains_seq, copy_string, join, join_exec,
    views,
};
use vstd::prelude::*;

verus! {

/// The names of the required variables that `provided` has no value for, in order.
pub open spec fn missing_variables(
    vars: Seq<(Seq<char>, VariableView)>,
    provided: Seq<(Seq<char>, Seq<char>)>,
) -> Seq<Seq<char>>
    decreases vars.len(),
{
    if vars.len() == 0 {
        Seq::empty()
    } else {
        let prev = missing_variables(vars.drop_last(), provided);
        let (n, v) = vars.last();
        if v.required && first_index(provided, key_is::<Seq<char>>(n)) is None {
            prev.push(n)
        } else {
            prev
        }
    }
}

/// The names of the required variables of `template` that `provided` lacks.
fn missing_of(template: &Template, provided: &Vec<(String, String)>) -> (r: Vec<String>)
    ensures
        views(r@) == missing_variables(vars_view(template.variables@), pairs_view(provided@)),
{
    let vars = &template.variables;
    let mut r: Vec<String> = Vec::new();
    let mut i: usize = 0;
    while i < vars.len()
        invariant
            i <= vars.len(),
            views(r@) == missing_variables(vars_view(vars@).take(i as int), pairs_view(provided@)),
        decreases vars.len() - i,
    {
        proof {
            assert(vars_view(vars@).take(i + 1).drop_last() =~= vars_view(vars@).take(i as int));
        }
        let name = &vars[i].0;
        let nc = chars_of(name.as_str());
        if vars[i].1.required && find_key(provided, nc.as_slice()).is_none() {
            let ghost before = r@;
            r.push(copy_string(name));
            assert(views(r@) =~= views(before).push(name@));
        }
        i = i + 1;
    }
    assert(vars_view(vars@).take(vars@.len() as int) =~= vars_view(vars@));
    r
}

impl Template {
    /// The names of the required variables that `provided` has no value for.
    pub fn get_missing_variables(&self, provided: &Vec<(String, String)>) -> (r: Result<Vec<String>, InfraError>)
        ensures
            r matches Ok(v) && views(v@) == missing_variables(vars_view(self.variables@), pairs_view(provided@)),
    {
        Ok(missing_of(self, provided))
    }
}

/// Reads, checks and lists the variables of Packer templates.
pub struct TemplateManager {}

/// What a template file shows before it is fully read.
#[derive(Debug, Clone)]
pub struct TemplateInfo {
    pub name: String,
    pub path: String,
    pub description: Option<String>,
}

/// The message that lists the missing required variables.
pub open spec fn missing_message(missing: Seq<Seq<char>>) -> Seq<char> {
    "Missing required variables: "@ + join(missing, ", "@)
}

/// The value of the first `default` attribute among `items`.
pub open spec fn first_default(items: Seq<TreeItem>) -> Option<Seq<char>>
    decreases items.len(),
{
    if items.len() == 0 {
        None
    } else {
        match first_default(items.drop_last()) {
            Some(d) => Some(d),
            None => match items.last() {
                TreeItem::Attribute(a) => if a.key@ == "default"@ {
                    Some(a.expr.text@)
                } else {
                    None
                },
                TreeItem::Block(_) => None,
            },
        }
    }
}

/// The default of the first `variable "description"` block that has one.
pub open spec fn description_of(items: Seq<TreeItem>) -> Option<Seq<char>>
    decreases items.len(),
{
    if items.len() == 0 {
        None
    } else {
        match description_of(items.drop_last()) {
            Some(d) => Some(d),
            None => match items.last() {
                TreeItem::Block(b) => if b.identifier@ == "variable"@ && b.labels@.len() > 0
                    && b.labels@[0]@ == "description"@ {
                    first_default(b.body.structures@)
                } else {
                    None
                },
                TreeItem::Attribute(_) => None,
            },
        }
    }
}

/// The expression text of the first `default` attribute among `items`.
fn first_default_exec(items: &Vec<TreeItem>) -> (r: Option<String>)
    ensures
        opt_view(r) == first_default(items@),
{
    let mut i: usize = 0;
    while i < items.len()
        invariant
            i <= items.len(),
            first_default(items@.take(i as int)) is None,
        decreases items.len() - i,
    {
        proof {
            assert(items@.take(i + 1).drop_last() =~= items@.take(i as int));
        }
        match &items[i] {
            TreeItem::Attribute(a) => {
                let k = chars_of(a.key.as_str());
                if chars_eq_str(k.as_slice(), "default") {
                    proof {
                        lemma_first_default_found(items@, i + 1, items@.len() as int);
                        assert(items@.take(items@.len() as int) =~= items@);
                    }
                    return Some(copy_string(&a.expr.text));
                }
            },
            TreeItem::Block(_) => {},
        }
        i = i + 1;
    }
    assert(items@.take(items@.len() as int) =~= items@);
    None
}

proof fn lemma_first_default_found(items: Seq<TreeItem>, i: int, j: int)
    requires
        0 <= i <= j <= items.len(),
        first_default(items.take(i)) is Some,
    ensures
        first_default(items.take(j)) == first_default(items.take(i)),
    decreases j - i,
{
    if j > i {
        lemma_first_default_found(items, i, j - 1);
        assert(items.take(j).drop_last() =~= items.take(j - 1));
    }
}

proof fn lemma_description_found(items: Seq<TreeItem>, i: int, j: int)
    requires
        0 <= i <= j <= items.len(),
        description_of(items.take(i)) is Some,
    ensures
        description_of(items.take(j)) == description_of(items.take(i)),
    decreases j - i,
{
    if j > i {
        lemma_description_found(items, i, j - 1);
        assert(items.take(j).drop_last() =~= items.take(j - 1));
    }
}

/// The default of the `variable "description"` block of a template, as its
/// expression text; the first such block with a default counts.
pub fn extract_description_from_body(body: &TreeBody) -> (r: Option<String>)
    ensures
        opt_view(r) == description_of(body.structures@),
{
    let items = &body.structures;
    let mut i: usize = 0;
    while i < items.len()
        invariant
            i <= items.len(),
            items@ == body.structures@,
            description_of(items@.take(i as int)) is None,
        decreases items.len() - i,
    {
        proof {
            assert(items@.take(i + 1).drop_last() =~= items@.take(i as int));
        }
        match &items[i] {
            TreeItem::Block(b) => {
                let id = chars_of(b.identifier.as_str());
                if chars_eq_str(id.as_slice(), "variable") && b.labels.len() > 0 {
                    let l = chars_of(b.labels[0].as_str());
                    if chars_eq_str(l.as_slice(), "description") {
                        match first_default_exec(&b.body.structures) {
                            Some(d) => {
                                proof {
                                    lemma_description_found(items@, i + 1, items@.len() as int);
                                    assert(items@.take(items@.len() as int) =~= items@);
                                }
                                return Some(d);
                            },
                            None => {},
                        }
                    }
                }
            },
            TreeItem::Attribute(_) => {},
        }
        i = i + 1;
    }
    assert(items@.take(items@.len() as int) =~= items@);
    None
}

/// Whether a file's text looks like a Packer template: it mentions `source` and
/// has a `build` block.
pub fn is_packer_template(content: &str) -> (r: bool)
    ensures
        r == (contains_seq(content@, "source"@) && (contains_seq(content@, "build {"@)
            || contains_seq(content@, "build{"@))),
{
    let c = chars_of(content);
    let s = chars_of("source");
    let b1 = chars_of("build {");
    let b2 = chars_of("build{");
    contains_exec(c.as_slice(), s.as_slice()) && (contains_exec(c.as_slice(), b1.as_slice())
        || contains_exec(c.as_slice(), b2.as_slice()))
}

/// The file stem of a path, or the empty string.
pub open spec fn stem_or_empty(path: Seq<char>) -> Seq<char> {
    match file_stem(path) {
        Some(s) => s,
        None => Seq::empty(),
    }
}

fn stem_or_empty_exec(path: &str) -> (r: String)
    ensures
        r@ == stem_or_empty(path@),
{
    match file_stem_string(path) {
        Some(s) => s,
        None => String::new(),
    }
}

/// A template as the manager reads it: without dependencies or description.
pub open spec fn managed_template(p: TemplateParts, content: Seq<char>) -> TemplateView {
    TemplateView {
        dependencies: crate::packer_parse::no_parts().dependencies,
        description: None,
        ..template_with(p, content)
    }
}

impl TemplateManager {
    pub fn new() -> (r: Self) {
        TemplateManager {}
    }

    /// Reads a template's HCL text: its variables, sources and provisioners.
    pub fn parse_template(&self, content: &str) -> (r: Result<Template, InfraError>)
        ensures
            match hcl_parse(content@) {
                None => r matches Err(InfraError::HclParse(m)) && m@ == crate::hcl_tree::hcl_error_text(content@),
                Some(b) => match template_parts(b.structures@) {
                    Ok(p) => r matches Ok(t) && t@ == managed_template(p, content@),
                    Err(m) => r matches Err(InfraError::Template(s)) && s@ == m,
                },
            },
            r matches Ok(t) ==> crate::seqs::distinct_keys(t@.variables),
    {
        match parse_hcl(content) {
            Ok(body) => self.template_from_body(&body, content),
            Err(m) => Err(InfraError::HclParse(m)),
        }
    }

    /// Reads the top-level blocks of a template's HCL tree, leaving out the
    /// dependencies and the description.
    pub fn template_from_body(&self, body: &TreeBody, content: &str) -> (r: Result<Template, InfraError>)
        ensures
            match template_parts(body.structures@) {
                Ok(p) => r matches Ok(t) && t@ == managed_template(p, content@),
                Err(m) => r matches Err(InfraError::Template(s)) && s@ == m,
            },
            r matches Ok(t) ==> crate::seqs::distinct_keys(t@.variables),
    {
        match template_from_body(body, content) {
            Ok(t) => {
                let deps = TemplateDependencies::new();
                let r = Template { dependencies: deps, description: None, ..t };
                proof {
                    assert(r@.dependencies.script_files =~= Seq::empty());
                    assert(r@.dependencies.floppy_files =~= Seq::empty());
                    assert(r@.dependencies.provisioner_files =~= Seq::empty());
                    assert(r@.dependencies.http_directories =~= Seq::empty());
                }
                Ok(r)
            },
            Err(e) => Err(e),
        }
    }

    /// The template in a file, named by the file's stem and placed at `path`.
    pub fn template_from_file(&self, path: &str, content: &str) -> (r: Result<Template, InfraError>)
        ensures
            match hcl_parse(content@) {
                None => r matches Err(InfraError::HclParse(m)) && m@ == crate::hcl_tree::hcl_error_text(content@),
                Some(b) => match template_parts(b.structures@) {
                    Ok(p) => r matches Ok(t) && t@ == TemplateView {
                        name: stem_or_empty(path@),
                        path: Some(path@),
                        ..managed_template(p, content@)
                    },
                    Err(m) => r matches Err(InfraError::Template(s)) && s@ == m,
                },
            },
            r matches Ok(t) ==> crate::seqs::distinct_keys(t@.variables),
    {
        match self.parse_template(content) {
            Ok(t) => Ok(Template { name: stem_or_empty_exec(path), path: Some(String::from_str(path)), ..t }),
            Err(e) => Err(e),
        }
    }

    /// What a template file shows before it is fully read: its stem, its path,
    /// and its description when its text parses.
    pub fn extract_template_info(&self, path: &str, content: &str) -> (r: TemplateInfo)
        ensures
            r.name@ == stem_or_empty(path@),
            r.path@ == path@,
            opt_view(r.description) == match hcl_parse(content@) {
                Some(b) => description_of(b.structures@),
                None => None,
            },
    {
        let description = match parse_hcl(content) {
            Ok(body) => extract_description_from_body(&body),
            Err(_) => None,
        };
        TemplateInfo { name: stem_or_empty_exec(path), path: String::from_str(path), description }
    }

    /// Fails with the list of missing required variables, if any.
    pub fn validate(&self, template: &Template, variables: &Vec<(String, String)>) -> (r: Result<(), InfraError>)
        ensures
            missing_variables(vars_view(template.variables@), pairs_view(variables@)).len() == 0 ==> r is Ok,
            missing_variables(vars_view(template.variables@), pairs_view(variables@)).len() > 0 ==> (r matches Err(
                InfraError::Variable(m),
            ) && m@ == missing_message(missing_variables(vars_view(template.variables@), pairs_view(variables@)))),
    {
        let missing = missing_of(template, variables);
        if missing.len() > 0 {
            let mut m = String::from_str("Missing required variables: ");
            let list = join_exec(&missing, ", ");
            append_str(&mut m, list.as_str());
            return Err(InfraError::Variable(m));
        }
        Ok(())
    }

    /// The names of the required variables of `template` that `provided` lacks.
    pub fn get_missing_variables(&self, template: &Template, provided: &Vec<(String, String)>) -> (r: Result<Vec<String>, InfraError>)
        ensures
            r matches Ok(v) && views(v@) == missing_variables(vars_view(template.variables@), pairs_view(provided@)),
    {
        Ok(missing_of(template, provided))
    }

    /// Each variable's name, whether it is required, and its description.
    pub fn get_variable_info(&self, template: &Template) -> (r: Vec<(String, bool, Option<String>)>)
        ensures
            r@.len() == template.variables@.len(),
            forall|i: int| 0 <= i < r@.len() ==> {
                let (n, v) = #[trigger] template.variables@[i];
                &&& r@[i].0@ == n@
                &&& r@[i].1 == v.required
                &&& opt_view(r@[i].2) == opt_view(v.description)
            },
    {
        let vars = &template.variables;
        let mut r: Vec<(String, bool, Option<String>)> = Vec::new();
        let mut i: usize = 0;
        while i < vars.len()
            invariant
                i <= vars.len(),
                r@.len() == i,
                forall|k: int| 0 <= k < i ==> {
                    let (n, v) = #[trigger] vars@[k];
                    &&& r@[k].0@ == n@
                    &&& r@[k].1 == v.required
                    &&& opt_view(r@[k].2) == opt_view(v.description)
                },
            decreases vars.len() - i,
        {
            let d = match &vars[i].1.description {
                Some(s) => Some(copy_string(s)),
                None => None,
            };
            r.push((copy_string(&vars[i].0), vars[i].1.required, d));
            i = i + 1;
        }
        r
    }
}

/// Why `value` is not acceptable for a variable, if it is not: a variable with a
/// list of allowed values accepts only those.
pub open spec fn value_error(v: VariableView, value: Seq<char>) -> Option<Seq<char>> {
    match v.enum_values {
        Some(vals) => if vals.contains(value) {
            None
        } else {
            Some("must be one of: "@ + join(vals, ", "@))
        },
        None => None,
    }
}

impl Variable {
    /// Checks a value against the variable's allowed values and gives it back.
    pub fn validate_and_format(&self, value: &str) -> (r: Result<String, String>)
        ensures
            match value_error(self@, value@) {
                Some(m) => r matches Err(e) && e@ == m,
                None => r matches Ok(s) && s@ == value@,
            },
    {
        match &self.enum_values {
            Some(vals) => {
                let mut i: usize = 0;
                while i < vals.len()
                    invariant
                        i <= vals.len(),
                        self@.enum_values == Some(views(vals@)),
                        forall|k: int| 0 <= k < i ==> vals@[k]@ != value@,
                    decreases vals.len() - i,
                {
                    if crate::text::string_eq_str(&vals[i], value) {
                        proof {
                            assert(views(vals@)[i as int] == value@);
                        }
                        return Ok(String::from_str(value));
                    }
                    i = i + 1;
                }
                proof {
                    assert(!views(vals@).contains(value@)) by {
                        if views(vals@).contains(value@) {
                            let k = choose|k: int| 0 <= k < views(vals@).len() && views(vals@)[k] == value@;
                            assert(vals@[k]@ == value@);
                        }
                    }
                }
                let mut m = String::from_str("must be one of: ");
                let list = join_exec(vals, ", ");
                append_str(&mut m, list.as_str());
                Err(m)
            },
            None => Ok(String::from_str(value)),
        }
    }
}

/// One line per variable that fails: a provided value that is not acceptable, or a
/// required variable without a value; each starts with the variable's name.
pub open spec fn variable_errors(
    vars: Seq<(Seq<char>, VariableView)>,
    provided: Seq<(Seq<char>, Seq<char>)>,
) -> Seq<Seq<char>>
    decreases vars.len(),
{
    if vars.len() == 0 {
        Seq::empty()
    } else {
        let prev = variable_errors(vars.drop_last(), provided);
        let (n, v) = vars.last();
        match lookup(provided, n) {
            Some(val) => match value_error(v, val) {
                Some(e) => prev.push(n + ": "@ + e),
                None => prev,
            },
            None => if v.required {
                prev.push(n + ": Missing required variable"@)
            } else {
                prev
            },
        }
    }
}

impl Template {
    /// Checks every variable against the provided values; the failures, one per
    /// line, make a `Variable` error.
    pub fn validate_all_variables(&self, variables: &Vec<(String, String)>) -> (r: Result<(), InfraError>)
        ensures
            variable_errors(vars_view(self.variables@), pairs_view(variables@)).len() == 0 ==> r is Ok,
            variable_errors(vars_view(self.variables@), pairs_view(variables@)).len() > 0 ==> (r matches Err(
                InfraError::Variable(m),
            ) && m@ == join(variable_errors(vars_view(self.variables@), pairs_view(variables@)), "\n"@)),
    {
        let vars = &self.variables;
        let ghost want = vars_view(vars@);
        let mut errors: Vec<String> = Vec::new();
        let mut i: usize = 0;
        while i < vars.len()
            invariant
                i <= vars.len(),
                want == vars_view(vars@),
                views(errors@) == variable_errors(want.take(i as int), pairs_view(variables@)),
            decreases vars.len() - i,
        {
            proof {
                assert(want.take(i + 1).drop_last() =~= want.take(i as int));
            }
            let name = &vars[i].0;
            let nc = chars_of(name.as_str());
            let ghost before = errors@;
            match find_key(variables, nc.as_slice()) {
                Some(j) => {
                    match vars[i].1.validate_and_format(variables[j].1.as_str()) {
                        Ok(_) => {},
                        Err(e) => {
                            let mut line = copy_string(name);
                            append_str(&mut line, ": ");
                            append_str(&mut line, e.as_str());
                            errors.push(line);
                            assert(views(errors@) =~= views(before).push(name@ + ": "@ + e@));
                        },
                    }
                },
                None => {
                    if vars[i].1.required {
                        let mut line = copy_string(name);
                        append_str(&mut line, ": Missing required variable");
                        errors.push(line);
                        assert(views(errors@) =~= views(before).push(name@ + ": Missing required variable"@));
                    }
                },
            }
            i = i + 1;
        }
        assert(want.take(vars@.len() as int) =~= want);
        if errors.len() == 0 {
            Ok(())
        } else {
            Err(InfraError::Variable(join_exec(&errors, "\n")))
        }
    }
}

/// Law: when every variable of a template checks out against the provided values, no
/// required variable is missing; a missing one always fails the check.
pub proof fn law_valid_variables_are_complete(
    vars: Seq<(Seq<char>, VariableView)>,
    provided: Seq<(Seq<char>, Seq<char>)>,
)
    ensures
        variable_errors(vars, provided).len() == 0 ==> missing_variables(vars, provided).len() == 0,
        missing_variables(vars, provided).len() <= variable_errors(vars, provided).len(),
    decreases vars.len(),
{
    if vars.len() > 0 {
        law_valid_variables_are_complete(vars.drop_last(), provided);
    }
}

/// Every name that `missing_variables` lists is the name of one of the variables.
proof fn lemma_missing_are_variables(vars: Seq<(Seq<char>, VariableView)>, provided: Seq<(Seq<char>, Seq<char>)>)
    ensures
        forall|k: int|
            0 <= k < missing_variables(vars, provided).len() ==> exists|j: int|
                0 <= j < vars.len() && #[trigger] missing_variables(vars, provided)[k] == vars[j].0,
    decreases vars.len(),
{
    if vars.len() > 0 {
        let d = vars.drop_last();
        lemma_missing_are_variables(d, provided);
        let m = missing_variables(vars, provided);
        let prev = missing_variables(d, provided);
        assert forall|k: int| 0 <= k < m.len() implies exists|j: int|
            0 <= j < vars.len() && #[trigger] m[k] == vars[j].0 by {
            if k < prev.len() {
                assert(m[k] == prev[k]);
                let j = choose|j: int| 0 <= j < d.len() && prev[k] == d[j].0;
                assert(d[j] == vars[j]);
            } else {
                assert(m[k] == vars[vars.len() - 1].0);
            }
        }
    }
}

/// Law: for a template that names each variable once, each missing variable is
/// listed once.
pub proof fn law_missing_variables_listed_once(
    vars: Seq<(Seq<char>, VariableView)>,
    provided: Seq<(Seq<char>, Seq<char>)>,
)
    requires
        crate::seqs::distinct_keys(vars),
    ensures
        crate::seqs::distinct(missing_variables(vars, provided)),
    decreases vars.len(),
{
    if vars.len() > 0 {
        let d = vars.drop_last();
        assert(crate::seqs::distinct_keys(d)) by {
            assert forall|i: int, j: int| 0 <= i < d.len() && 0 <= j < d.len() && i != j implies
                #[trigger] d[i].0 != #[trigger] d[j].0 by {
                assert(d[i] == vars[i] && d[j] == vars[j]);
            }
        }
        law_missing_variables_listed_once(d, provided);
        lemma_missing_are_variables(d, provided);
        let m = missing_variables(vars, provided);
        let prev = missing_variables(d, provided);
        let last = vars.len() - 1;
        assert forall|a: int, b: int| 0 <= a < m.len() && 0 <= b < m.len() && a != b implies m[a] != m[b] by {
            if a < prev.len() && b < prev.len() {
                assert(m[a] == prev[a] && m[b] == prev[b]);
            } else if a < prev.len() {
                assert(m[a] == prev[a]);
                let j = choose|j: int| 0 <= j < d.len() && prev[a] == d[j].0;
                assert(d[j] == vars[j]);
                assert(vars[j].0 != vars[last].0);
            } else {
                assert(m[b] == prev[b]);
                let j = choose|j: int| 0 <= j < d.len() && prev[b] == d[j].0;
                assert(d[j] == vars[j]);
                assert(vars[j].0 != vars[last].0);
            }
        }
    }
}

} // verus!
