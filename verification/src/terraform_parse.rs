//! Terraform text: variable files, `terraform show` output, and the resources,
//! providers and modules of a configuration.
use crate::hcl_tree::{hcl_parse, parse_hcl, TreeBlock, TreeBody, TreeItem};
use crate::seqs::insert_entry;
use crate::string_map::{map_insert, pairs_view};
use crate::text::{
    chars_eq_str, chars_of, contains_exec, occurs_at, contains_seq, ends_with, ends_with_exec, find_exec, find_seq,
    lines, lines_exec, slice_chars, starts_with, starts_with_exec, string_of, trim, trim_char,
    trim_char_exec, trim_exec,
};
use vstd::prelude::*;

verus! {

/// Errors of the infrastructure layer.
#[derive(Debug, Clone)]
pub enum InfraError {
    Packer(String),
    Template(String),
    Variable(String),
    Ansible(String),
    Terraform(String),
    Config(String),
    Io(String),
    HclParse(String),
    NotFound(String),
    Playbook(String),
    Build(String),
}

/// The text before and after the first occurrence of `sep` (`str::splitn(2, sep)`).
pub open spec fn split_once(s: Seq<char>, sep: Seq<char>) -> Option<(Seq<char>, Seq<char>)> {
    match find_seq(s, sep) {
        Some(i) => Some((s.take(i), s.skip(i + sep.len()))),
        None => None,
    }
}

/// Splits `s` around the first occurrence of `sep`.
pub fn split_once_exec(s: &[char], sep: &[char]) -> (r: Option<(Vec<char>, Vec<char>)>)
    ensures
        match split_once(s@, sep@) {
            Some((a, b)) => r matches Some((x, y)) && x@ == a && y@ == b,
            None => r is None,
        },
{
    match find_exec(s, sep) {
        Some(i) => {
            assert(occurs_at(s@, sep@, i as int));
            assert(i + sep@.len() <= s@.len());
            let sl = sep.len();
            assert(sl == sep@.len());
            assert(s@.len() == s.len());
            assert(i as int + sl as int <= s.len());
            let a = slice_chars(s, 0, i);
            let b = slice_chars(s, i + sl, s.len());
            assert(a@ =~= s@.take(i as int));
            assert(b@ =~= s@.skip(i + sep@.len()));
            Some((a, b))
        },
        None => None,
    }
}

/// The value part of `key = "value"`: the text after the first `" = "`, trimmed,
/// without surrounding double quotes.
pub open spec fn quoted_value(rest: Seq<char>) -> Seq<char> {
    trim_char(trim(rest), '"')
}

/// The entry a line of `terraform show` output gives: lines holding `" = "` give
/// the trimmed text before it and the unquoted text after it.
pub open spec fn state_line_entry(line: Seq<char>) -> Option<(Seq<char>, Seq<char>)> {
    let l = trim(line);
    if contains_seq(l, " = "@) {
        match split_once(l, " = "@) {
            Some((a, b)) => Some((trim(a), quoted_value(b))),
            None => None,
        }
    } else {
        None
    }
}

/// The map built from the entries of the lines, later keys replacing earlier values.
pub open spec fn state_entries(ls: Seq<Seq<char>>) -> Seq<(Seq<char>, Seq<char>)>
    decreases ls.len(),
{
    if ls.len() == 0 {
        Seq::empty()
    } else {
        let prev = state_entries(ls.drop_last());
        match state_line_entry(ls.last()) {
            Some((k, v)) => insert_entry(prev, k, v),
            None => prev,
        }
    }
}

/// Collects `key = value` pairs from `terraform show` output.
pub fn parse_state_output(output: &str) -> (r: Vec<(String, String)>)
    ensures
        pairs_view(r@) == state_entries(lines(output@)),
{
    let chars = chars_of(output);
    let ls = lines_exec(chars.as_slice());
    let ghost all = lines(output@);
    let sep = chars_of(" = ");
    let mut r: Vec<(String, String)> = Vec::new();
    let mut i: usize = 0;
    while i < ls.len()
        invariant
            ls@.len() == all.len(),
            forall|k: int| 0 <= k < ls@.len() ==> #[trigger] ls@[k]@ == all[k],
            sep@ == " = "@,
            i <= ls.len(),
            pairs_view(r@) == state_entries(all.take(i as int)),
        decreases ls.len() - i,
    {
        proof {
            assert(all.take(i + 1).drop_last() =~= all.take(i as int));
        }
        let l = trim_exec(ls[i].as_slice());
        if contains_exec(l.as_slice(), sep.as_slice()) {
            match split_once_exec(l.as_slice(), sep.as_slice()) {
                Some((a, b)) => {
                    let k = trim_exec(a.as_slice());
                    let vt = trim_exec(b.as_slice());
                    let v = trim_char_exec(vt.as_slice(), '"');
                    map_insert(&mut r, string_of(k.as_slice()), string_of(v.as_slice()));
                },
                None => {},
            }
        }
        i = i + 1;
    }
    assert(all.take(all.len() as int) =~= all);
    r
}

/// The id and address found so far in the lines: a line holding `"id = "` sets the
/// id, else one holding `"private_ip = "` or `"ip_address = "` sets the address,
/// each to the unquoted text after the first `" = "`.
pub open spec fn vm_fields(ls: Seq<Seq<char>>) -> (Option<Seq<char>>, Option<Seq<char>>)
    decreases ls.len(),
{
    if ls.len() == 0 {
        (None, None)
    } else {
        let prev = vm_fields(ls.drop_last());
        let l = trim(ls.last());
        if contains_seq(l, "id = "@) {
            match split_once(l, " = "@) {
                Some((_, b)) => (Some(quoted_value(b)), prev.1),
                None => prev,
            }
        } else if contains_seq(l, "private_ip = "@) || contains_seq(l, "ip_address = "@) {
            match split_once(l, " = "@) {
                Some((_, b)) => (prev.0, Some(quoted_value(b))),
                None => prev,
            }
        } else {
            prev
        }
    }
}

/// The id and address of a VM from `terraform state show` output; `None` unless both appear.
pub fn parse_vm_instance(state_output: &str) -> (r: Option<(String, String)>)
    ensures
        match vm_fields(lines(state_output@)) {
            (Some(id), Some(ip)) => r matches Some((a, b)) && a@ == id && b@ == ip,
            _ => r is None,
        },
{
    let chars = chars_of(state_output);
    let ls = lines_exec(chars.as_slice());
    let ghost all = lines(state_output@);
    let sep = chars_of(" = ");
    let id_pat = chars_of("id = ");
    let pip_pat = chars_of("private_ip = ");
    let ipa_pat = chars_of("ip_address = ");
    let mut vm_id: Option<Vec<char>> = None;
    let mut vm_ip: Option<Vec<char>> = None;
    let mut i: usize = 0;
    while i < ls.len()
        invariant
            ls@.len() == all.len(),
            forall|k: int| 0 <= k < ls@.len() ==> #[trigger] ls@[k]@ == all[k],
            sep@ == " = "@,
            id_pat@ == "id = "@,
            pip_pat@ == "private_ip = "@,
            ipa_pat@ == "ip_address = "@,
            i <= ls.len(),
            match vm_fields(all.take(i as int)).0 {
                Some(x) => vm_id matches Some(v) && v@ == x,
                None => vm_id is None,
            },
            match vm_fields(all.take(i as int)).1 {
                Some(x) => vm_ip matches Some(v) && v@ == x,
                None => vm_ip is None,
            },
        decreases ls.len() - i,
    {
        proof {
            assert(all.take(i + 1).drop_last() =~= all.take(i as int));
        }
        let l = trim_exec(ls[i].as_slice());
        if contains_exec(l.as_slice(), id_pat.as_slice()) {
            match split_once_exec(l.as_slice(), sep.as_slice()) {
                Some((_, b)) => {
                    let vt = trim_exec(b.as_slice());
                    vm_id = Some(trim_char_exec(vt.as_slice(), '"'));
                },
                None => {},
            }
        } else if contains_exec(l.as_slice(), pip_pat.as_slice()) || contains_exec(
            l.as_slice(),
            ipa_pat.as_slice(),
        ) {
            match split_once_exec(l.as_slice(), sep.as_slice()) {
                Some((_, b)) => {
                    let vt = trim_exec(b.as_slice());
                    vm_ip = Some(trim_char_exec(vt.as_slice(), '"'));
                },
                None => {},
            }
        }
        i = i + 1;
    }
    assert(all.take(all.len() as int) =~= all);
    match (vm_id, vm_ip) {
        (Some(a), Some(b)) => Some((string_of(a.as_slice()), string_of(b.as_slice()))),
        _ => None,
    }
}

/// The map from the top-level attributes of a body to their expression texts,
/// later keys replacing earlier values.
pub open spec fn attribute_texts(items: Seq<TreeItem>) -> Seq<(Seq<char>, Seq<char>)>
    decreases items.len(),
{
    if items.len() == 0 {
        Seq::empty()
    } else {
        let prev = attribute_texts(items.drop_last());
        match items.last() {
            TreeItem::Attribute(a) => insert_entry(prev, a.key@, a.expr.text@),
            TreeItem::Block(_) => prev,
        }
    }
}

/// The attributes of a body as a map from key to expression text.
pub fn body_variables(body: &TreeBody) -> (r: Vec<(String, String)>)
    ensures
        pairs_view(r@) == attribute_texts(body.structures@),
{
    let mut r: Vec<(String, String)> = Vec::new();
    let mut i: usize = 0;
    while i < body.structures.len()
        invariant
            i <= body.structures.len(),
            pairs_view(r@) == attribute_texts(body.structures@.take(i as int)),
        decreases body.structures.len() - i,
    {
        proof {
            assert(body.structures@.take(i + 1).drop_last() =~= body.structures@.take(i as int));
        }
        match &body.structures[i] {
            TreeItem::Attribute(a) => {
                map_insert(&mut r, crate::text::copy_string(&a.key), crate::text::copy_string(&a.expr.text));
            },
            TreeItem::Block(_) => {},
        }
        i = i + 1;
    }
    assert(body.structures@.take(body.structures@.len() as int) =~= body.structures@);
    r
}

/// Parses a configuration's HCL text; text that HCL rejects is an `HclParse` error.
pub fn parse_config(content: &str) -> (r: Result<TreeBody, InfraError>)
    ensures
        match hcl_parse(content@) {
            Some(b) => r == Ok::<TreeBody, InfraError>(b),
            None => r matches Err(InfraError::HclParse(m)) && m@ == crate::hcl_tree::hcl_error_text(content@),
        },
{
    match parse_hcl(content) {
        Ok(b) => Ok(b),
        Err(m) => Err(InfraError::HclParse(m)),
    }
}

/// The top-level attributes of an HCL variables file as a map from key to
/// expression text; an error when HCL rejects the text.
pub fn parse_variables_hcl(content: &str) -> (r: Result<Vec<(String, String)>, InfraError>)
    ensures
        match hcl_parse(content@) {
            Some(b) => r matches Ok(v) && pairs_view(v@) == attribute_texts(b.structures@),
            None => r matches Err(InfraError::HclParse(m)) && m@ == crate::hcl_tree::hcl_error_text(content@),
        },
{
    match parse_hcl(content) {
        Ok(body) => Ok(body_variables(&body)),
        Err(m) => Err(InfraError::HclParse(m)),
    }
}

/// The trimmed value after the first `=` of a line, before unquoting.
pub open spec fn raw_value(l: Seq<char>, pos: int) -> Seq<char> {
    trim(l.skip(pos + 1))
}

/// `true` when the line-based reading would meet a value that is a lone `"`
/// (which cannot be unquoted): a line that is neither blank nor a comment.
pub open spec fn lone_quote_line(line: Seq<char>) -> bool {
    let l = trim(line);
    if l.len() == 0 || starts_with(l, "#"@) || starts_with(l, "//"@) {
        false
    } else {
        match find_seq(l, "="@) {
            Some(pos) => raw_value(l, pos) == seq!['"'],
            None => false,
        }
    }
}

/// Whether a line holds a value that is a lone `"`.
fn lone_quote_line_exec(line: &[char]) -> (r: bool)
    ensures
        r == lone_quote_line(line@),
{
    let l = trim_exec(line);
    let hash = chars_of("#");
    let slashes = chars_of("//");
    let eq = chars_of("=");
    if l.len() == 0 || starts_with_exec(l.as_slice(), hash.as_slice()) || starts_with_exec(
        l.as_slice(),
        slashes.as_slice(),
    ) {
        return false;
    }
    match find_exec(l.as_slice(), eq.as_slice()) {
        Some(pos) => {
            proof {
                reveal_strlit("=");
                assert(occurs_at(l@, eq@, pos as int));
            }
            let v = trim_exec(slice_chars(l.as_slice(), pos + 1, l.len()).as_slice());
            proof {
                assert(l@.subrange(pos + 1, l@.len() as int) =~= l@.skip(pos + 1));
            }
            if v.len() == 1 && v[0] == '"' {
                assert(v@ =~= seq!['"']);
                true
            } else {
                false
            }
        },
        None => false,
    }
}

/// Whether some line of `content` holds a value that is a lone `"`.
pub fn has_lone_quote_exec(content: &str) -> (r: bool)
    ensures
        r == has_lone_quote(content@),
{
    let chars = chars_of(content);
    let ls = lines_exec(chars.as_slice());
    let ghost all = lines(content@);
    let mut i: usize = 0;
    while i < ls.len()
        invariant
            ls@.len() == all.len(),
            all == lines(content@),
            forall|k: int| 0 <= k < ls@.len() ==> #[trigger] ls@[k]@ == all[k],
            i <= ls.len(),
            forall|k: int| 0 <= k < i ==> !lone_quote_line(#[trigger] all[k]),
        decreases ls.len() - i,
    {
        if lone_quote_line_exec(ls[i].as_slice()) {
            assert(lone_quote_line(all[i as int]));
            return true;
        }
        i = i + 1;
    }
    false
}

/// `true` when some line of `content` would hold a lone `"` as value.
pub open spec fn has_lone_quote(content: Seq<char>) -> bool {
    exists|k: int| 0 <= k < lines(content).len() && lone_quote_line(#[trigger] lines(content)[k])
}

/// The entry of a `key = value` line of the line-based reading: blank lines and
/// comments give none; the key is the trimmed text before the first `=`, the value
/// the trimmed text after it, without a surrounding pair of double quotes.
pub open spec fn fallback_entry(line: Seq<char>) -> Option<(Seq<char>, Seq<char>)> {
    let l = trim(line);
    if l.len() == 0 || starts_with(l, "#"@) || starts_with(l, "//"@) {
        None
    } else {
        match find_seq(l, "="@) {
            Some(pos) => {
                let v = raw_value(l, pos);
                Some(
                    (
                        trim(l.take(pos)),
                        if starts_with(v, "\""@) && ends_with(v, "\""@) {
                            v.subrange(1, v.len() - 1)
                        } else {
                            v
                        },
                    ),
                )
            },
            None => None,
        }
    }
}

/// The map the line-based reading builds, later keys replacing earlier values.
pub open spec fn fallback_entries(ls: Seq<Seq<char>>) -> Seq<(Seq<char>, Seq<char>)>
    decreases ls.len(),
{
    if ls.len() == 0 {
        Seq::empty()
    } else {
        let prev = fallback_entries(ls.drop_last());
        match fallback_entry(ls.last()) {
            Some((k, v)) => insert_entry(prev, k, v),
            None => prev,
        }
    }
}

/// Whether reading a `.tfvars` file goes line by line: HCL rejects it or finds no
/// attribute in it.
pub open spec fn falls_back(content: Seq<char>) -> bool {
    match hcl_parse(content) {
        Some(b) => attribute_texts(b.structures@).len() == 0,
        None => true,
    }
}

/// The variables of a `.tfvars` file: its HCL attributes when HCL accepts it and it
/// has some, else the `key = value` lines.
pub open spec fn variables_of(content: Seq<char>) -> Seq<(Seq<char>, Seq<char>)> {
    match hcl_parse(content) {
        Some(b) => if attribute_texts(b.structures@).len() > 0 {
            attribute_texts(b.structures@)
        } else {
            fallback_entries(lines(content))
        },
        None => fallback_entries(lines(content)),
    }
}

/// Reads variables from `.tfvars` text; HCL first, line by line when that fails or
/// finds nothing. A line whose value is a lone `"` cannot be unquoted there, so such
/// text is only accepted when HCL reads it.
pub fn parse_variables(content: &str) -> (r: Result<Vec<(String, String)>, InfraError>)
    requires
        !(falls_back(content@) && has_lone_quote(content@)),
    ensures
        r matches Ok(v) && pairs_view(v@) == variables_of(content@),
{
    match parse_variables_hcl(content) {
        Ok(v) => {
            if v.len() > 0 {
                return Ok(v);
            }
        },
        Err(_) => {},
    }
    assert(falls_back(content@));
    let chars = chars_of(content);
    let ls = lines_exec(chars.as_slice());
    let ghost all = lines(content@);
    let hash = chars_of("#");
    let slashes = chars_of("//");
    let eq = chars_of("=");
    let quote = chars_of("\"");
    let mut r: Vec<(String, String)> = Vec::new();
    let mut i: usize = 0;
    while i < ls.len()
        invariant
            ls@.len() == all.len(),
            forall|k: int| 0 <= k < ls@.len() ==> #[trigger] ls@[k]@ == all[k],
            !has_lone_quote(content@),
            all == lines(content@),
            hash@ == "#"@,
            slashes@ == "//"@,
            eq@ == "="@,
            quote@ == "\""@,
            i <= ls.len(),
            pairs_view(r@) == fallback_entries(all.take(i as int)),
        decreases ls.len() - i,
    {
        proof {
            assert(all.take(i + 1).drop_last() =~= all.take(i as int));
        }
        let l = trim_exec(ls[i].as_slice());
        if l.len() == 0 || starts_with_exec(l.as_slice(), hash.as_slice()) || starts_with_exec(
            l.as_slice(),
            slashes.as_slice(),
        ) {
        } else {
            match find_exec(l.as_slice(), eq.as_slice()) {
                Some(pos) => {
                    proof {
                        reveal_strlit("=");
                        assert(eq@.len() == 1);
                        assert(occurs_at(l@, eq@, pos as int));
                    }
                    let key = trim_exec(slice_chars(l.as_slice(), 0, pos).as_slice());
                    let v = trim_exec(slice_chars(l.as_slice(), pos + 1, l.len()).as_slice());
                    proof {
                        assert(slice_chars_spec(l@, 0, pos as int) =~= l@.take(pos as int));
                        assert(l@.subrange(pos + 1, l@.len() as int) =~= l@.skip(pos + 1));
                        assert(!lone_quote_line(all[i as int]));
                    }
                    let value = if starts_with_exec(v.as_slice(), quote.as_slice()) && ends_with_exec(
                        v.as_slice(),
                        quote.as_slice(),
                    ) {
                        proof {
                            reveal_strlit("\"");
                            assert("\""@ =~= seq!['"']);
                            assert(v@.take(1) == "\""@);
                            assert(v@.take(1)[0] == v@[0]);
                            if v@.len() == 1 {
                                assert(v@ =~= seq!['"']);
                            }
                        }
                        slice_chars(v.as_slice(), 1, v.len() - 1)
                    } else {
                        v
                    };
                    map_insert(&mut r, string_of(key.as_slice()), string_of(value.as_slice()));
                },
                None => {},
            }
        }
        i = i + 1;
    }
    assert(all.take(all.len() as int) =~= all);
    Ok(r)
}

/// Reads variables from `.tfvars` text as [`parse_variables`] does; `None` for text
/// that would be read line by line and holds a value that is a lone `"`.
pub fn try_parse_variables(content: &str) -> (r: Option<Result<Vec<(String, String)>, InfraError>>)
    ensures
        r is None <==> (falls_back(content@) && has_lone_quote(content@)),
        r matches Some(x) ==> (x matches Ok(v) && pairs_view(v@) == variables_of(content@)),
{
    let by_hcl = match parse_variables_hcl(content) {
        Ok(v) => v.len() > 0,
        Err(_) => false,
    };
    if !by_hcl && has_lone_quote_exec(content) {
        return None;
    }
    Some(parse_variables(content))
}

/// `s[from..to]`, as a spec.
pub open spec fn slice_chars_spec(s: Seq<char>, from: int, to: int) -> Seq<char> {
    s.subrange(from, to)
}

/// A resource as character sequences: type, name, attributes.
pub open spec fn resource_view(r: (String, String, Vec<(String, String)>)) -> (Seq<char>, Seq<char>, Seq<(Seq<char>, Seq<char>)>) {
    (r.0@, r.1@, pairs_view(r.2@))
}

/// A named block as character sequences: name, attributes.
pub open spec fn named_view(r: (String, Vec<(String, String)>)) -> (Seq<char>, Seq<(Seq<char>, Seq<char>)>) {
    (r.0@, pairs_view(r.1@))
}

/// The `resource "type" "name"` blocks among `items`, in order, with their attribute texts.
pub open spec fn resources_of(items: Seq<TreeItem>) -> Seq<(Seq<char>, Seq<char>, Seq<(Seq<char>, Seq<char>)>)>
    decreases items.len(),
{
    if items.len() == 0 {
        Seq::empty()
    } else {
        let prev = resources_of(items.drop_last());
        match items.last() {
            TreeItem::Block(b) => if b.identifier@ == "resource"@ && b.labels@.len() >= 2 {
                prev.push((b.labels@[0]@, b.labels@[1]@, attribute_texts(b.body.structures@)))
            } else {
                prev
            },
            TreeItem::Attribute(_) => prev,
        }
    }
}

/// The blocks with identifier `ident` and at least one label, in order, as the
/// first label and the attribute texts.
pub open spec fn labelled_blocks(items: Seq<TreeItem>, ident: Seq<char>) -> Seq<(Seq<char>, Seq<(Seq<char>, Seq<char>)>)>
    decreases items.len(),
{
    if items.len() == 0 {
        Seq::empty()
    } else {
        let prev = labelled_blocks(items.drop_last(), ident);
        match items.last() {
            TreeItem::Block(b) => if b.identifier@ == ident && b.labels@.len() >= 1 {
                prev.push((b.labels@[0]@, attribute_texts(b.body.structures@)))
            } else {
                prev
            },
            TreeItem::Attribute(_) => prev,
        }
    }
}

/// The resources of a configuration: type, name and attribute texts of each
/// `resource` block with two labels, in order.
pub fn extract_resources(body: &TreeBody) -> (r: Vec<(String, String, Vec<(String, String)>)>)
    ensures
        r@.map_values(|x: (String, String, Vec<(String, String)>)| resource_view(x)) == resources_of(body.structures@),
{
    let mut r: Vec<(String, String, Vec<(String, String)>)> = Vec::new();
    let mut i: usize = 0;
    while i < body.structures.len()
        invariant
            i <= body.structures.len(),
            r@.map_values(|x: (String, String, Vec<(String, String)>)| resource_view(x)) == resources_of(body.structures@.take(i as int)),
        decreases body.structures.len() - i,
    {
        proof {
            assert(body.structures@.take(i + 1).drop_last() =~= body.structures@.take(i as int));
        }
        match &body.structures[i] {
            TreeItem::Block(b) => {
                let id = chars_of(b.identifier.as_str());
                if chars_eq_str(id.as_slice(), "resource") && b.labels.len() >= 2 {
                    let attrs = body_variables(&b.body);
                    r.push((crate::text::copy_string(&b.labels[0]), crate::text::copy_string(&b.labels[1]), attrs));
                }
            },
            TreeItem::Attribute(_) => {},
        }
        i = i + 1;
        proof {
            assert(r@.map_values(|x: (String, String, Vec<(String, String)>)| resource_view(x)) =~= resources_of(body.structures@.take(i as int)));
        }
    }
    assert(body.structures@.take(body.structures@.len() as int) =~= body.structures@);
    r
}

/// Blocks with identifier `ident` and a label: first label and attribute texts.
fn labelled(body: &TreeBody, ident: &str) -> (r: Vec<(String, Vec<(String, String)>)>)
    ensures
        r@.map_values(|x: (String, Vec<(String, String)>)| named_view(x)) == labelled_blocks(body.structures@, ident@),
{
    let want = chars_of(ident);
    let mut r: Vec<(String, Vec<(String, String)>)> = Vec::new();
    let mut i: usize = 0;
    while i < body.structures.len()
        invariant
            i <= body.structures.len(),
            want@ == ident@,
            r@.map_values(|x: (String, Vec<(String, String)>)| named_view(x)) == labelled_blocks(body.structures@.take(i as int), ident@),
        decreases body.structures.len() - i,
    {
        proof {
            assert(body.structures@.take(i + 1).drop_last() =~= body.structures@.take(i as int));
        }
        match &body.structures[i] {
            TreeItem::Block(b) => {
                let id = chars_of(b.identifier.as_str());
                if crate::text::chars_eq(id.as_slice(), want.as_slice()) && b.labels.len() >= 1 {
                    let attrs = body_variables(&b.body);
                    r.push((crate::text::copy_string(&b.labels[0]), attrs));
                }
            },
            TreeItem::Attribute(_) => {},
        }
        i = i + 1;
        proof {
            assert(r@.map_values(|x: (String, Vec<(String, String)>)| named_view(x)) =~= labelled_blocks(body.structures@.take(i as int), ident@));
        }
    }
    assert(body.structures@.take(body.structures@.len() as int) =~= body.structures@);
    r
}

/// The providers of a configuration: name and attribute texts of each labelled
/// `provider` block, in order.
pub fn extract_providers(body: &TreeBody) -> (r: Vec<(String, Vec<(String, String)>)>)
    ensures
        r@.map_values(|x: (String, Vec<(String, String)>)| named_view(x)) == labelled_blocks(body.structures@, "provider"@),
{
    labelled(body, "provider")
}

/// The modules of a configuration: name and attribute texts of each labelled
/// `module` block, in order.
pub fn extract_modules(body: &TreeBody) -> (r: Vec<(String, Vec<(String, String)>)>)
    ensures
        r@.map_values(|x: (String, Vec<(String, String)>)| named_view(x)) == labelled_blocks(body.structures@, "module"@),
{
    labelled(body, "module")
}

/// The resource types that describe virtual machines.
pub open spec fn is_vm_resource_type(t: Seq<char>) -> bool {
    t == "aws_instance"@ || t == "azurerm_virtual_machine"@ || t == "google_compute_instance"@ || t
        == "vsphere_virtual_machine"@ || t == "libvirt_domain"@ || t == "digitalocean_droplet"@
}

/// The VM resources among `rs`, as name and attributes, in order.
pub open spec fn vm_resources_of(rs: Seq<(Seq<char>, Seq<char>, Seq<(Seq<char>, Seq<char>)>)>) -> Seq<(Seq<char>, Seq<(Seq<char>, Seq<char>)>)>
    decreases rs.len(),
{
    if rs.len() == 0 {
        Seq::empty()
    } else {
        let prev = vm_resources_of(rs.drop_last());
        if is_vm_resource_type(rs.last().0) {
            prev.push((rs.last().1, rs.last().2))
        } else {
            prev
        }
    }
}

/// Whether a resource type describes a virtual machine.
fn vm_type(t: &[char]) -> (r: bool)
    ensures
        r == is_vm_resource_type(t@),
{
    chars_eq_str(t, "aws_instance") || chars_eq_str(t, "azurerm_virtual_machine") || chars_eq_str(
        t,
        "google_compute_instance",
    ) || chars_eq_str(t, "vsphere_virtual_machine") || chars_eq_str(t, "libvirt_domain")
        || chars_eq_str(t, "digitalocean_droplet")
}

/// The VM resources of a configuration (by resource type), as name and attributes.
pub fn find_vm_resources(body: &TreeBody) -> (r: Vec<(String, Vec<(String, String)>)>)
    ensures
        r@.map_values(|x: (String, Vec<(String, String)>)| named_view(x)) == vm_resources_of(resources_of(body.structures@)),
{
    let resources = extract_resources(body);
    let ghost rs = resources_of(body.structures@);
    let mut r: Vec<(String, Vec<(String, String)>)> = Vec::new();
    let mut i: usize = 0;
    let ghost all = resources@;
    while i < resources.len()
        invariant
            i <= all.len(),
            resources@ == all,
            all.map_values(|x: (String, String, Vec<(String, String)>)| resource_view(x)) == rs,
            r@.map_values(|x: (String, Vec<(String, String)>)| named_view(x)) == vm_resources_of(rs.take(i as int)),
        decreases resources.len() - i,
    {
        proof {
            assert(rs.take(i + 1).drop_last() =~= rs.take(i as int));
            assert(resource_view(all[i as int]) == rs[i as int]);
        }
        let t = chars_of(resources[i].0.as_str());
        if vm_type(t.as_slice()) {
            let name = crate::text::copy_string(&resources[i].1);
            let attrs = copy_pairs(&resources[i].2);
            r.push((name, attrs));
        }
        i = i + 1;
        proof {
            assert(r@.map_values(|x: (String, Vec<(String, String)>)| named_view(x)) =~= vm_resources_of(rs.take(i as int)));
        }
    }
    assert(rs.take(rs.len() as int) =~= rs);
    r
}

/// A copy of a string map.
pub fn copy_pairs(m: &Vec<(String, String)>) -> (r: Vec<(String, String)>)
    ensures
        pairs_view(r@) == pairs_view(m@),
{
    let mut r: Vec<(String, String)> = Vec::new();
    let mut i: usize = 0;
    while i < m.len()
        invariant
            i <= m.len(),
            pairs_view(r@) == pairs_view(m@).take(i as int),
        decreases m.len() - i,
    {
        let k = crate::text::copy_string(&m[i].0);
        let v = crate::text::copy_string(&m[i].1);
        let ghost before = pairs_view(r@);
        r.push((k, v));
        proof {
            assert(pairs_view(m@)[i as int] == (k@, v@));
            assert(pairs_view(r@) =~= before.push((k@, v@)));
            assert(pairs_view(m@).take(i + 1) =~= pairs_view(m@).take(i as int).push((k@, v@)));
        }
        i = i + 1;
    }
    assert(pairs_view(m@).take(m@.len() as int) =~= pairs_view(m@));
    r
}

/// Law: the pairs read from `terraform show` output name each key once; a later line
/// with the same key replaces the earlier value.
pub proof fn law_state_keys_named_once(ls: Seq<Seq<char>>)
    ensures
        crate::seqs::distinct_keys(state_entries(ls)),
    decreases ls.len(),
{
    if ls.len() > 0 {
        law_state_keys_named_once(ls.drop_last());
        match state_line_entry(ls.last()) {
            Some((k, v)) => crate::seqs::lemma_insert_entry_distinct(state_entries(ls.drop_last()), k, v),
            None => {},
        }
    }
}

/// Law: the variables read line by line name each key once.
pub proof fn law_fallback_keys_named_once(ls: Seq<Seq<char>>)
    ensures
        crate::seqs::distinct_keys(fallback_entries(ls)),
    decreases ls.len(),
{
    if ls.len() > 0 {
        law_fallback_keys_named_once(ls.drop_last());
        match fallback_entry(ls.last()) {
            Some((k, v)) => crate::seqs::lemma_insert_entry_distinct(fallback_entries(ls.drop_last()), k, v),
            None => {},
        }
    }
}

/// Law: the attributes of a body, as key and expression text, name each key once.
pub proof fn law_attribute_keys_named_once(items: Seq<TreeItem>)
    ensures
        crate::seqs::distinct_keys(attribute_texts(items)),
    decreases items.len(),
{
    if items.len() > 0 {
        law_attribute_keys_named_once(items.drop_last());
        match items.last() {
            TreeItem::Attribute(a) => crate::seqs::lemma_insert_entry_distinct(
                attribute_texts(items.drop_last()),
                a.key@,
                a.expr.text@,
            ),
            TreeItem::Block(_) => {},
        }
    }
}

/// Law: the variables of a `.tfvars` file name each key once, however it was read.
pub proof fn law_variables_named_once(content: Seq<char>)
    ensures
        crate::seqs::distinct_keys(variables_of(content)),
{
    law_fallback_keys_named_once(lines(content));
    match hcl_parse(content) {
        Some(b) => law_attribute_keys_named_once(b.structures@),
        None => {},
    }
}

} // verus!
