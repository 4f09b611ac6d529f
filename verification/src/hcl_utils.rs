//! Reading values out of HCL trees: strings, flags and lists from expressions,
//! plain values from whole expressions, and attribute maps from blocks.
use crate::hcl_tree::{hcl_parse, parse_hcl, ExprKind, TreeAttr, TreeBlock, TreeBody, TreeExpr, TreeItem};
use crate::packer_template::opt_view;
use crate::seqs::insert_entry;
use crate::text::{
    append_str, chars_eq_str, chars_of, copy_string, ends_with, slice_chars, starts_with, string_eq_str,
    string_of, views,
};
use vstd::prelude::*;

verus! {

/// Errors of reading HCL. A parse error is the parser's message.
#[derive(Debug)]
pub enum HclError {
    ParseError(String),
    InvalidValue(String),
    MissingField(String),
    TypeMismatch { expected: String, actual: String },
    ValidationError(String),
    ExtractionError(String),
}

/// A plain value read from an expression. A number is its text.
#[derive(Debug)]
pub enum HclValue {
    String(String),
    Number(String),
    Bool(bool),
    Array(Vec<HclValue>),
    Object(Vec<(String, HclValue)>),
    Null,
}

/// A plain value as a mathematical value.
pub enum ValueView {
    String(Seq<char>),
    Number(Seq<char>),
    Bool(bool),
    Array(Seq<ValueView>),
    Object(Seq<(Seq<char>, ValueView)>),
    Null,
}

/// The mathematical value of a plain value.
pub open spec fn value_view(v: HclValue) -> ValueView
    decreases v,
{
    match v {
        HclValue::String(s) => ValueView::String(s@),
        HclValue::Number(n) => ValueView::Number(n@),
        HclValue::Bool(b) => ValueView::Bool(b),
        HclValue::Array(xs) => ValueView::Array(values_view(xs@)),
        HclValue::Object(kv) => ValueView::Object(entries_view(kv@)),
        HclValue::Null => ValueView::Null,
    }
}

/// The mathematical values of a list of plain values.
pub open spec fn values_view(xs: Seq<HclValue>) -> Seq<ValueView>
    decreases xs,
{
    if xs.len() == 0 {
        Seq::empty()
    } else {
        values_view(xs.drop_last()).push(value_view(xs.last()))
    }
}

/// The mathematical entries of an object.
pub open spec fn entries_view(kv: Seq<(String, HclValue)>) -> Seq<(Seq<char>, ValueView)>
    decreases kv,
{
    if kv.len() == 0 {
        Seq::empty()
    } else {
        entries_view(kv.drop_last()).push((kv.last().0@, value_view(kv.last().1)))
    }
}

/// The string an expression holds: a plain string, or the text of another
/// expression between a leading and a trailing double quote.
pub open spec fn string_of_expr(e: TreeExpr) -> Option<Seq<char>> {
    match e.kind {
        ExprKind::Str(s) => Some(s@),
        _ => {
            let t = e.text@;
            if starts_with(t, seq!['"']) && ends_with(t, seq!['"']) && t.len() >= 2 {
                Some(t.subrange(1, t.len() - 1))
            } else {
                None
            }
        },
    }
}

/// The string an expression holds, if any.
pub fn extract_string(expr: &TreeExpr) -> (r: Option<String>)
    ensures
        opt_view(r) == string_of_expr(*expr),
{
    match &expr.kind {
        ExprKind::Str(s) => Some(copy_string(s)),
        _ => {
            let t = chars_of(expr.text.as_str());
            let n = t.len();
            if n >= 2 && t[0] == '"' && t[n - 1] == '"' {
                proof {
                    assert(t@.take(1) =~= seq!['"']);
                    assert(t@.skip(n - 1) =~= seq!['"']);
                }
                let inner = slice_chars(t.as_slice(), 1, n - 1);
                Some(string_of(inner.as_slice()))
            } else {
                proof {
                    if starts_with(t@, seq!['"']) && ends_with(t@, seq!['"']) && t@.len() >= 2 {
                        assert(t@.take(1)[0] == t@[0]);
                        assert(t@.skip(n - 1)[0] == t@[n - 1]);
                    }
                }
                None
            }
        },
    }
}

/// The flag an expression holds: a boolean, or the text `true` or `false`.
pub open spec fn bool_of_expr(e: TreeExpr) -> Option<bool> {
    match e.kind {
        ExprKind::Bool(b) => Some(b),
        _ => if e.text@ == "true"@ {
            Some(true)
        } else if e.text@ == "false"@ {
            Some(false)
        } else {
            None
        },
    }
}

/// The flag an expression holds, if any.
pub fn extract_bool(expr: &TreeExpr) -> (r: Option<bool>)
    ensures
        r == bool_of_expr(*expr),
{
    match &expr.kind {
        ExprKind::Bool(b) => Some(*b),
        _ => if string_eq_str(&expr.text, "true") {
            Some(true)
        } else if string_eq_str(&expr.text, "false") {
            Some(false)
        } else {
            None
        },
    }
}

/// The plain value of an expression: literals as they are, lists and objects
/// element by element (a later key of an object replaces an earlier one), and any
/// other expression as the string it holds, else as its text.
pub open spec fn value_of(e: TreeExpr) -> ValueView
    decreases e,
{
    match e.kind {
        ExprKind::Str(s) => ValueView::String(s@),
        ExprKind::Number => ValueView::Number(e.text@),
        ExprKind::Bool(b) => ValueView::Bool(b),
        ExprKind::Null => ValueView::Null,
        ExprKind::Array(xs) => ValueView::Array(values_of(xs@)),
        ExprKind::Object(kv) => ValueView::Object(object_of(kv@)),
        ExprKind::Other => match string_of_expr(e) {
            Some(s) => ValueView::String(s),
            None => ValueView::String(e.text@),
        },
    }
}

/// The plain values of a list of expressions.
pub open spec fn values_of(xs: Seq<TreeExpr>) -> Seq<ValueView>
    decreases xs,
{
    if xs.len() == 0 {
        Seq::empty()
    } else {
        values_of(xs.drop_last()).push(value_of(xs.last()))
    }
}

/// The entries of an object expression, a later key replacing an earlier one.
pub open spec fn object_of(kv: Seq<(String, TreeExpr)>) -> Seq<(Seq<char>, ValueView)>
    decreases kv,
{
    if kv.len() == 0 {
        Seq::empty()
    } else {
        insert_entry(object_of(kv.drop_last()), kv.last().0@, value_of(kv.last().1))
    }
}

proof fn lemma_values_view(xs: Seq<HclValue>)
    ensures
        values_view(xs).len() == xs.len(),
        forall|i: int| 0 <= i < xs.len() ==> #[trigger] values_view(xs)[i] == value_view(xs[i]),
    decreases xs.len(),
{
    if xs.len() > 0 {
        lemma_values_view(xs.drop_last());
    }
}

proof fn lemma_entries_view(kv: Seq<(String, HclValue)>)
    ensures
        entries_view(kv).len() == kv.len(),
        forall|i: int| 0 <= i < kv.len() ==> #[trigger] entries_view(kv)[i] == (kv[i].0@, value_view(kv[i].1)),
    decreases kv.len(),
{
    if kv.len() > 0 {
        lemma_entries_view(kv.drop_last());
    }
}

/// Stores `v` under `k` in an object: replaces the value of an existing key, else appends.
fn object_insert(m: &mut Vec<(String, HclValue)>, k: String, v: HclValue)
    ensures
        entries_view(final(m)@) == insert_entry(entries_view(old(m)@), k@, value_view(v)),
{
    let ghost s = entries_view(m@);
    proof {
        lemma_entries_view(m@);
    }
    let kc = chars_of(k.as_str());
    let mut i: usize = 0;
    while i < m.len()
        invariant
            i <= m.len(),
            m@ == old(m)@,
            s == entries_view(m@),
            s.len() == m@.len(),
            forall|j: int| 0 <= j < m@.len() ==> #[trigger] s[j] == (m@[j].0@, value_view(m@[j].1)),
            kc@ == k@,
            forall|j: int| 0 <= j < i ==> !crate::seqs::key_is::<ValueView>(k@)(s[j]),
        decreases m.len() - i,
    {
        let c = chars_of(m[i].0.as_str());
        if crate::text::chars_eq(c.as_slice(), kc.as_slice()) {
            proof {
                crate::seqs::lemma_first_index_at(s, crate::seqs::key_is::<ValueView>(k@), i as int);
            }
            let ghost kv = k@;
            let ghost vv = value_view(v);
            m.set(i, (k, v));
            proof {
                lemma_entries_view(m@);
                assert(entries_view(m@) =~= s.update(i as int, (kv, vv)));
            }
            return;
        }
        i = i + 1;
    }
    proof {
        crate::seqs::lemma_first_index_none(s, crate::seqs::key_is::<ValueView>(k@));
    }
    let ghost kv = k@;
    let ghost vv = value_view(v);
    m.push((k, v));
    proof {
        assert(m@.drop_last() =~= old(m)@);
        assert(entries_view(m@) =~= s.push((kv, vv)));
    }
}

/// The plain value of an expression.
pub fn expression_to_hcl_value(expr: &TreeExpr) -> (r: Result<HclValue, HclError>)
    ensures
        r matches Ok(v) && value_view(v) == value_of(*expr),
    decreases expr,
{
    match &expr.kind {
        ExprKind::Str(s) => Ok(HclValue::String(copy_string(s))),
        ExprKind::Number => Ok(HclValue::Number(copy_string(&expr.text))),
        ExprKind::Bool(b) => Ok(HclValue::Bool(*b)),
        ExprKind::Null => Ok(HclValue::Null),
        ExprKind::Array(items) => {
            let mut vals: Vec<HclValue> = Vec::new();
            let mut i: usize = 0;
            while i < items.len()
                invariant
                    i <= items.len(),
                    expr.kind == ExprKind::Array(*items),
                    values_view(vals@) == values_of(items@.take(i as int)),
                decreases items.len() - i,
            {
                proof {
                    assert(items@.take(i + 1).drop_last() =~= items@.take(i as int));
                    assert(decreases_to!(*expr => expr.kind));
                    assert(decreases_to!(expr.kind => *items));
                    assert(decreases_to!(*items => items@));
                    assert(decreases_to!(items@ => items@[i as int]));
                }
                let v = match expression_to_hcl_value(&items[i]) {
                    Ok(v) => v,
                    Err(e) => return Err(e),
                };
                let ghost before = vals@;
                vals.push(v);
                proof {
                    assert(vals@.drop_last() =~= before);
                }
                i = i + 1;
            }
            assert(items@.take(items@.len() as int) =~= items@);
            Ok(HclValue::Array(vals))
        },
        ExprKind::Object(kv) => {
            let mut map: Vec<(String, HclValue)> = Vec::new();
            let mut i: usize = 0;
            while i < kv.len()
                invariant
                    i <= kv.len(),
                    expr.kind == ExprKind::Object(*kv),
                    entries_view(map@) == object_of(kv@.take(i as int)),
                decreases kv.len() - i,
            {
                proof {
                    assert(kv@.take(i + 1).drop_last() =~= kv@.take(i as int));
                    assert(decreases_to!(*expr => expr.kind));
                    assert(decreases_to!(expr.kind => *kv));
                    assert(decreases_to!(*kv => kv@));
                    assert(decreases_to!(kv@ => kv@[i as int]));
                    assert(decreases_to!(kv@[i as int] => kv@[i as int].1));
                }
                let v = match expression_to_hcl_value(&kv[i].1) {
                    Ok(v) => v,
                    Err(e) => return Err(e),
                };
                object_insert(&mut map, copy_string(&kv[i].0), v);
                i = i + 1;
            }
            assert(kv@.take(kv@.len() as int) =~= kv@);
            Ok(HclValue::Object(map))
        },
        ExprKind::Other => match extract_string(expr) {
            Some(s) => Ok(HclValue::String(s)),
            None => Ok(HclValue::String(copy_string(&expr.text))),
        },
    }
}

/// The predicate "holds no string".
pub open spec fn not_string() -> spec_fn(TreeExpr) -> bool {
    |e: TreeExpr| string_of_expr(e) is None
}

/// A type mismatch: what was expected, and what was found.
fn mismatch(expected: &str, actual: &String) -> (r: HclError)
    ensures
        r matches HclError::TypeMismatch { expected: x, actual: a } && x@ == expected@ && a@ == actual@,
{
    HclError::TypeMismatch { expected: String::from_str(expected), actual: copy_string(actual) }
}

/// The strings of a list expression; an error names the first item that holds no
/// string (as `Debug` shows it), or the expression when it is no list.
pub fn extract_string_array(expr: &TreeExpr) -> (r: Result<Vec<String>, HclError>)
    ensures
        match expr.kind {
            ExprKind::Array(items) => match crate::seqs::first_index(items@, not_string()) {
                Some(i) => r matches Err(HclError::TypeMismatch { expected, actual })
                    && expected@ == "string"@ && actual@ == items@[i].debug@,
                None => r matches Ok(v) && views(v@) == items@.map_values(|e: TreeExpr| string_of_expr(e)->Some_0),
            },
            _ => r matches Err(HclError::TypeMismatch { expected, actual }) && expected@ == "array"@
                && actual@ == expr.text@,
        },
{
    match &expr.kind {
        ExprKind::Array(items) => {
            let ghost want = items@.map_values(|e: TreeExpr| string_of_expr(e)->Some_0);
            let mut out: Vec<String> = Vec::new();
            let mut i: usize = 0;
            while i < items.len()
                invariant
                    i <= items.len(),
                    expr.kind == ExprKind::Array(*items),
                    want == items@.map_values(|e: TreeExpr| string_of_expr(e)->Some_0),
                    forall|j: int| 0 <= j < i ==> !not_string()(items@[j]),
                    views(out@) == want.take(i as int),
                decreases items.len() - i,
            {
                match extract_string(&items[i]) {
                    Some(s) => {
                        let ghost before = out@;
                        assert(want[i as int] == s@);
                        out.push(s);
                        assert(views(out@) =~= views(before).push(want[i as int]));
                        assert(views(out@) =~= want.take(i + 1));
                    },
                    None => {
                        proof {
                            crate::seqs::lemma_first_index_at(items@, not_string(), i as int);
                        }
                        return Err(mismatch("string", &items[i].debug));
                    },
                }
                i = i + 1;
            }
            proof {
                crate::seqs::lemma_first_index_none(items@, not_string());
            }
            assert(want.take(i as int) =~= want);
            Ok(out)
        },
        _ => Err(mismatch("array", &expr.text)),
    }
}

/// The allowed values that a validation expression of the form
/// `contains(["a", "b"], var.x)` lists: the comma-separated items between the first
/// `[` and the first `]`, when the text mentions `contains(`, `[` and `]` and the
/// `[` comes first.
pub open spec fn enum_values_of_text(text: Seq<char>) -> Option<Seq<Seq<char>>> {
    if crate::text::contains_seq(text, "contains("@) && crate::text::contains_seq(text, "["@)
        && crate::text::contains_seq(text, "]"@) {
        match (crate::text::find_seq(text, "["@), crate::text::find_seq(text, "]"@)) {
            (Some(start), Some(end)) => if start < end {
                Some(crate::text::split_char(text.subrange(start + 1, end), ',').map_values(
                    |p: Seq<char>| crate::packer_parse::enum_value(p),
                ))
            } else {
                None
            },
            _ => None,
        }
    } else {
        None
    }
}

/// The allowed values listed by a validation attribute, read from its expression text.
pub fn extract_enum_validation(attr: &TreeAttr) -> (r: Option<Vec<String>>)
    ensures
        match enum_values_of_text(attr.expr.text@) {
            Some(vals) => r matches Some(v) && views(v@) == vals,
            None => r is None,
        },
{
    let t = chars_of(attr.expr.text.as_str());
    let call = chars_of("contains(");
    let open = chars_of("[");
    let close = chars_of("]");
    if crate::text::contains_exec(t.as_slice(), call.as_slice()) && crate::text::contains_exec(t.as_slice(), open.as_slice())
        && crate::text::contains_exec(t.as_slice(), close.as_slice()) {
        match (crate::text::find_exec(t.as_slice(), open.as_slice()), crate::text::find_exec(t.as_slice(), close.as_slice())) {
            (Some(start), Some(end)) => {
                if start < end {
                    let inner = slice_chars(t.as_slice(), start + 1, end);
                    Some(crate::packer_parse::enum_values_list(inner.as_slice()))
                } else {
                    None
                }
            },
            _ => None,
        }
    } else {
        None
    }
}

/// The map from the attributes of a block to their plain values, a later key
/// replacing an earlier value.
pub open spec fn block_values(items: Seq<TreeItem>) -> Seq<(Seq<char>, ValueView)>
    decreases items.len(),
{
    if items.len() == 0 {
        Seq::empty()
    } else {
        let prev = block_values(items.drop_last());
        match items.last() {
            TreeItem::Attribute(a) => insert_entry(prev, a.key@, value_of(a.expr)),
            TreeItem::Block(_) => prev,
        }
    }
}

/// The attributes of a block with their plain values.
pub fn extract_block_attributes(block: &TreeBlock) -> (r: Vec<(String, HclValue)>)
    ensures
        entries_view(r@) == block_values(block.body.structures@),
{
    let items = &block.body.structures;
    let mut m: Vec<(String, HclValue)> = Vec::new();
    let mut i: usize = 0;
    while i < items.len()
        invariant
            i <= items.len(),
            items@ == block.body.structures@,
            entries_view(m@) == block_values(items@.take(i as int)),
        decreases items.len() - i,
    {
        proof {
            assert(items@.take(i + 1).drop_last() =~= items@.take(i as int));
        }
        match &items[i] {
            TreeItem::Attribute(a) => {
                match expression_to_hcl_value(&a.expr) {
                    Ok(v) => object_insert(&mut m, copy_string(&a.key), v),
                    Err(_) => {},
                }
            },
            TreeItem::Block(_) => {},
        }
        i = i + 1;
    }
    assert(items@.take(items@.len() as int) =~= items@);
    m
}

/// The first attribute among `items` with key `key`.
pub open spec fn first_attr(items: Seq<TreeItem>, key: Seq<char>) -> Option<TreeAttr>
    decreases items.len(),
{
    if items.len() == 0 {
        None
    } else {
        match first_attr(items.drop_last(), key) {
            Some(a) => Some(a),
            None => match items.last() {
                TreeItem::Attribute(a) => if a.key@ == key {
                    Some(a)
                } else {
                    None
                },
                TreeItem::Block(_) => None,
            },
        }
    }
}

proof fn lemma_first_attr_stays(items: Seq<TreeItem>, key: Seq<char>, i: int, j: int)
    requires
        0 <= i <= j <= items.len(),
        first_attr(items.take(i), key) is Some,
    ensures
        first_attr(items.take(j), key) == first_attr(items.take(i), key),
    decreases j - i,
{
    if j > i {
        lemma_first_attr_stays(items, key, i, j - 1);
        assert(items.take(j).drop_last() =~= items.take(j - 1));
    }
}

/// The first attribute of a body with key `key`.
pub fn find_attr<'a>(body: &'a TreeBody, key: &str) -> (r: Option<&'a TreeAttr>)
    ensures
        match first_attr(body.structures@, key@) {
            Some(a) => r == Some(&a),
            None => r is None,
        },
{
    let items = &body.structures;
    let mut i: usize = 0;
    while i < items.len()
        invariant
            i <= items.len(),
            items@ == body.structures@,
            first_attr(items@.take(i as int), key@) is None,
        decreases items.len() - i,
    {
        proof {
            assert(items@.take(i + 1).drop_last() =~= items@.take(i as int));
        }
        match &items[i] {
            TreeItem::Attribute(a) => {
                if string_eq_str(&a.key, key) {
                    proof {
                        lemma_first_attr_stays(items@, key@, i + 1, items@.len() as int);
                        assert(items@.take(items@.len() as int) =~= items@);
                    }
                    return Some(a);
                }
            },
            TreeItem::Block(_) => {},
        }
        i = i + 1;
    }
    assert(items@.take(items@.len() as int) =~= items@);
    None
}

/// What reading a typed value from an expression gives: the value, or the type
/// that was expected with the expression's text.
pub enum Read<T> {
    Value(T),
    Mismatch(Seq<char>, Seq<char>),
}

/// A string read from an expression.
pub open spec fn read_string(e: TreeExpr) -> Read<Seq<char>> {
    match string_of_expr(e) {
        Some(s) => Read::Value(s),
        None => Read::Mismatch("string"@, e.text@),
    }
}

/// A flag read from an expression.
pub open spec fn read_bool(e: TreeExpr) -> Read<bool> {
    match bool_of_expr(e) {
        Some(b) => Read::Value(b),
        None => Read::Mismatch("boolean"@, e.text@),
    }
}

/// The first item of a list that holds no string.
pub open spec fn read_strings(e: TreeExpr) -> Read<Seq<Seq<char>>> {
    match e.kind {
        ExprKind::Array(items) => match crate::seqs::first_index(items@, not_string()) {
            Some(i) => Read::Mismatch("string"@, items@[i].text@),
            None => Read::Value(items@.map_values(|x: TreeExpr| string_of_expr(x)->Some_0)),
        },
        _ => Read::Mismatch("array"@, e.text@),
    }
}

/// Whether a result is the reading `w`.
pub open spec fn result_is<T, V>(r: Result<T, HclError>, w: Read<V>, f: spec_fn(T) -> V) -> bool {
    match w {
        Read::Value(v) => r matches Ok(x) && f(x) == v,
        Read::Mismatch(exp, act) => r matches Err(HclError::TypeMismatch { expected, actual })
            && expected@ == exp && actual@ == act,
    }
}

/// Reads a string from an expression.
pub fn string_from_expression(e: &TreeExpr) -> (r: Result<String, HclError>)
    ensures
        result_is(r, read_string(*e), |s: String| s@),
{
    match extract_string(e) {
        Some(s) => Ok(s),
        None => Err(mismatch("string", &e.text)),
    }
}

/// Reads a flag from an expression.
pub fn bool_from_expression(e: &TreeExpr) -> (r: Result<bool, HclError>)
    ensures
        result_is(r, read_bool(*e), |b: bool| b),
{
    match extract_bool(e) {
        Some(b) => Ok(b),
        None => Err(mismatch("boolean", &e.text)),
    }
}

/// Reads a list of strings from an expression.
pub fn strings_from_expression(e: &TreeExpr) -> (r: Result<Vec<String>, HclError>)
    ensures
        result_is(r, read_strings(*e), |v: Vec<String>| views(v@)),
{
    match &e.kind {
        ExprKind::Array(items) => {
            let ghost want = items@.map_values(|x: TreeExpr| string_of_expr(x)->Some_0);
            let mut out: Vec<String> = Vec::new();
            let mut i: usize = 0;
            while i < items.len()
                invariant
                    i <= items.len(),
                    e.kind == ExprKind::Array(*items),
                    want == items@.map_values(|x: TreeExpr| string_of_expr(x)->Some_0),
                    forall|j: int| 0 <= j < i ==> !not_string()(items@[j]),
                    views(out@) == want.take(i as int),
                decreases items.len() - i,
            {
                match extract_string(&items[i]) {
                    Some(s) => {
                        let ghost before = out@;
                        assert(want[i as int] == s@);
                        out.push(s);
                        assert(views(out@) =~= views(before).push(want[i as int]));
                        assert(views(out@) =~= want.take(i + 1));
                    },
                    None => {
                        proof {
                            crate::seqs::lemma_first_index_at(items@, not_string(), i as int);
                        }
                        return Err(mismatch("string", &items[i].text));
                    },
                }
                i = i + 1;
            }
            proof {
                crate::seqs::lemma_first_index_none(items@, not_string());
            }
            assert(want.take(i as int) =~= want);
            Ok(out)
        },
        _ => Err(mismatch("array", &e.text)),
    }
}

/// Reads typed values from the attributes of a block.
pub struct HclExtractor<'a> {
    pub block: &'a TreeBlock,
}

impl<'a> HclExtractor<'a> {
    pub fn new(block: &'a TreeBlock) -> (r: Self)
        ensures
            r.block == block,
    {
        HclExtractor { block }
    }

    /// The string of the attribute `key`; missing is an error.
    pub fn extract_required_string(&self, key: &str) -> (r: Result<String, HclError>)
        ensures
            match first_attr(self.block.body.structures@, key@) {
                None => r matches Err(HclError::MissingField(k)) && k@ == key@,
                Some(a) => result_is(r, read_string(a.expr), |s: String| s@),
            },
    {
        match find_attr(&self.block.body, key) {
            None => Err(HclError::MissingField(String::from_str(key))),
            Some(a) => string_from_expression(&a.expr),
        }
    }

    /// The flag of the attribute `key`; missing is an error.
    pub fn extract_required_bool(&self, key: &str) -> (r: Result<bool, HclError>)
        ensures
            match first_attr(self.block.body.structures@, key@) {
                None => r matches Err(HclError::MissingField(k)) && k@ == key@,
                Some(a) => result_is(r, read_bool(a.expr), |b: bool| b),
            },
    {
        match find_attr(&self.block.body, key) {
            None => Err(HclError::MissingField(String::from_str(key))),
            Some(a) => bool_from_expression(&a.expr),
        }
    }

    /// The strings of the list attribute `key`; missing is an error.
    pub fn extract_required_strings(&self, key: &str) -> (r: Result<Vec<String>, HclError>)
        ensures
            match first_attr(self.block.body.structures@, key@) {
                None => r matches Err(HclError::MissingField(k)) && k@ == key@,
                Some(a) => result_is(r, read_strings(a.expr), |v: Vec<String>| views(v@)),
            },
    {
        match find_attr(&self.block.body, key) {
            None => Err(HclError::MissingField(String::from_str(key))),
            Some(a) => strings_from_expression(&a.expr),
        }
    }

    /// The string of the attribute `key`, if it is there.
    pub fn extract_optional_string(&self, key: &str) -> (r: Result<Option<String>, HclError>)
        ensures
            match first_attr(self.block.body.structures@, key@) {
                None => r matches Ok(None),
                Some(a) => match read_string(a.expr) {
                    Read::Value(v) => r matches Ok(Some(s)) && s@ == v,
                    Read::Mismatch(exp, act) => r matches Err(HclError::TypeMismatch { expected, actual })
                        && expected@ == exp && actual@ == act,
                },
            },
    {
        match find_attr(&self.block.body, key) {
            None => Ok(None),
            Some(a) => match string_from_expression(&a.expr) {
                Ok(s) => Ok(Some(s)),
                Err(e) => Err(e),
            },
        }
    }

    /// The flag of the attribute `key`, if it is there.
    pub fn extract_optional_bool(&self, key: &str) -> (r: Result<Option<bool>, HclError>)
        ensures
            match first_attr(self.block.body.structures@, key@) {
                None => r matches Ok(None),
                Some(a) => match read_bool(a.expr) {
                    Read::Value(v) => r matches Ok(Some(b)) && b == v,
                    Read::Mismatch(exp, act) => r matches Err(HclError::TypeMismatch { expected, actual })
                        && expected@ == exp && actual@ == act,
                },
            },
    {
        match find_attr(&self.block.body, key) {
            None => Ok(None),
            Some(a) => match bool_from_expression(&a.expr) {
                Ok(b) => Ok(Some(b)),
                Err(e) => Err(e),
            },
        }
    }

    /// The string of the attribute `key`, or `default` when it is missing or holds
    /// no string.
    pub fn extract_with_default_string(&self, key: &str, default: String) -> (r: String)
        ensures
            r@ == match first_attr(self.block.body.structures@, key@) {
                Some(a) => match read_string(a.expr) {
                    Read::Value(v) => v,
                    Read::Mismatch(_, _) => default@,
                },
                None => default@,
            },
    {
        match self.extract_optional_string(key) {
            Ok(Some(s)) => s,
            _ => default,
        }
    }

    /// The flag of the attribute `key`, or `default` when it is missing or holds no flag.
    pub fn extract_with_default_bool(&self, key: &str, default: bool) -> (r: bool)
        ensures
            r == match first_attr(self.block.body.structures@, key@) {
                Some(a) => match read_bool(a.expr) {
                    Read::Value(v) => v,
                    Read::Mismatch(_, _) => default,
                },
                None => default,
            },
    {
        match self.extract_optional_bool(key) {
            Ok(Some(b)) => b,
            _ => default,
        }
    }
}

/// The plain value of an expression in a document: literals as they are, lists and
/// objects element by element, and any other expression as its text.
pub open spec fn doc_value_of(e: TreeExpr) -> ValueView
    decreases e,
{
    match e.kind {
        ExprKind::Str(s) => ValueView::String(s@),
        ExprKind::Number => ValueView::Number(e.text@),
        ExprKind::Bool(b) => ValueView::Bool(b),
        ExprKind::Null => ValueView::Null,
        ExprKind::Array(xs) => ValueView::Array(doc_values_of(xs@)),
        ExprKind::Object(kv) => ValueView::Object(doc_object_of(kv@)),
        ExprKind::Other => ValueView::String(e.text@),
    }
}

pub open spec fn doc_values_of(xs: Seq<TreeExpr>) -> Seq<ValueView>
    decreases xs,
{
    if xs.len() == 0 {
        Seq::empty()
    } else {
        doc_values_of(xs.drop_last()).push(doc_value_of(xs.last()))
    }
}

pub open spec fn doc_object_of(kv: Seq<(String, TreeExpr)>) -> Seq<(Seq<char>, ValueView)>
    decreases kv,
{
    if kv.len() == 0 {
        Seq::empty()
    } else {
        insert_entry(doc_object_of(kv.drop_last()), kv.last().0@, doc_value_of(kv.last().1))
    }
}

/// The plain value of an expression in a document.
fn expression_to_value(expr: &TreeExpr) -> (r: Result<HclValue, HclError>)
    ensures
        r matches Ok(v) && value_view(v) == doc_value_of(*expr),
    decreases expr,
{
    match &expr.kind {
        ExprKind::Str(s) => Ok(HclValue::String(copy_string(s))),
        ExprKind::Number => Ok(HclValue::Number(copy_string(&expr.text))),
        ExprKind::Bool(b) => Ok(HclValue::Bool(*b)),
        ExprKind::Null => Ok(HclValue::Null),
        ExprKind::Array(items) => {
            let mut vals: Vec<HclValue> = Vec::new();
            let mut i: usize = 0;
            while i < items.len()
                invariant
                    i <= items.len(),
                    expr.kind == ExprKind::Array(*items),
                    values_view(vals@) == doc_values_of(items@.take(i as int)),
                decreases items.len() - i,
            {
                proof {
                    assert(items@.take(i + 1).drop_last() =~= items@.take(i as int));
                    assert(decreases_to!(*expr => expr.kind));
                    assert(decreases_to!(expr.kind => *items));
                    assert(decreases_to!(*items => items@));
                    assert(decreases_to!(items@ => items@[i as int]));
                }
                let v = match expression_to_value(&items[i]) {
                    Ok(v) => v,
                    Err(e) => return Err(e),
                };
                let ghost before = vals@;
                vals.push(v);
                proof {
                    assert(vals@.drop_last() =~= before);
                }
                i = i + 1;
            }
            assert(items@.take(items@.len() as int) =~= items@);
            Ok(HclValue::Array(vals))
        },
        ExprKind::Object(kv) => {
            let mut map: Vec<(String, HclValue)> = Vec::new();
            let mut i: usize = 0;
            while i < kv.len()
                invariant
                    i <= kv.len(),
                    expr.kind == ExprKind::Object(*kv),
                    entries_view(map@) == doc_object_of(kv@.take(i as int)),
                decreases kv.len() - i,
            {
                proof {
                    assert(kv@.take(i + 1).drop_last() =~= kv@.take(i as int));
                    assert(decreases_to!(*expr => expr.kind));
                    assert(decreases_to!(expr.kind => *kv));
                    assert(decreases_to!(*kv => kv@));
                    assert(decreases_to!(kv@ => kv@[i as int]));
                    assert(decreases_to!(kv@[i as int] => kv@[i as int].1));
                }
                let v = match expression_to_value(&kv[i].1) {
                    Ok(v) => v,
                    Err(e) => return Err(e),
                };
                object_insert(&mut map, copy_string(&kv[i].0), v);
                i = i + 1;
            }
            assert(kv@.take(kv@.len() as int) =~= kv@);
            Ok(HclValue::Object(map))
        },
        ExprKind::Other => Ok(HclValue::String(copy_string(&expr.text))),
    }
}

/// A block of a document: identifier, labels, attributes and nested blocks.
#[derive(Debug)]
pub struct HclBlock {
    pub identifier: String,
    pub labels: Vec<String>,
    pub attributes: Vec<(String, HclValue)>,
    pub nested_blocks: Vec<HclBlock>,
}

/// A document: its top-level blocks and attributes.
#[derive(Debug)]
pub struct HclDocument {
    pub blocks: Vec<HclBlock>,
    pub attributes: Vec<(String, HclValue)>,
}

/// A document block as mathematical values.
pub struct DocBlockView {
    pub identifier: Seq<char>,
    pub labels: Seq<Seq<char>>,
    pub attributes: Seq<(Seq<char>, ValueView)>,
    pub nested: Seq<DocBlockView>,
}

/// A document as mathematical values.
pub struct DocView {
    pub blocks: Seq<DocBlockView>,
    pub attributes: Seq<(Seq<char>, ValueView)>,
}

pub open spec fn doc_block_view(b: HclBlock) -> DocBlockView
    decreases b,
{
    DocBlockView {
        identifier: b.identifier@,
        labels: views(b.labels@),
        attributes: entries_view(b.attributes@),
        nested: doc_blocks_view(b.nested_blocks@),
    }
}

pub open spec fn doc_blocks_view(bs: Seq<HclBlock>) -> Seq<DocBlockView>
    decreases bs,
{
    if bs.len() == 0 {
        Seq::empty()
    } else {
        doc_blocks_view(bs.drop_last()).push(doc_block_view(bs.last()))
    }
}

pub open spec fn doc_view(d: HclDocument) -> DocView {
    DocView { blocks: doc_blocks_view(d.blocks@), attributes: entries_view(d.attributes@) }
}

/// The attributes of a body with their document values, a later key replacing an
/// earlier value.
pub open spec fn doc_attrs(items: Seq<TreeItem>) -> Seq<(Seq<char>, ValueView)>
    decreases items.len(),
{
    if items.len() == 0 {
        Seq::empty()
    } else {
        let prev = doc_attrs(items.drop_last());
        match items.last() {
            TreeItem::Attribute(a) => insert_entry(prev, a.key@, doc_value_of(a.expr)),
            TreeItem::Block(_) => prev,
        }
    }
}

/// The document block of an HCL block.
pub open spec fn doc_block_of(b: TreeBlock) -> DocBlockView
    decreases b,
{
    DocBlockView {
        identifier: b.identifier@,
        labels: views(b.labels@),
        attributes: doc_attrs(b.body.structures@),
        nested: doc_nested(b.body.structures@),
    }
}

/// The document blocks of the blocks among `items`, in order.
pub open spec fn doc_nested(items: Seq<TreeItem>) -> Seq<DocBlockView>
    decreases items,
{
    if items.len() == 0 {
        Seq::empty()
    } else {
        let prev = doc_nested(items.drop_last());
        match items.last() {
            TreeItem::Block(b) => prev.push(doc_block_of(b)),
            TreeItem::Attribute(_) => prev,
        }
    }
}

/// The document of a body.
pub open spec fn doc_of(body: TreeBody) -> DocView {
    DocView { blocks: doc_nested(body.structures@), attributes: doc_attrs(body.structures@) }
}

/// The attributes of a body with their document values.
fn doc_attributes(body: &TreeBody) -> (r: Result<Vec<(String, HclValue)>, HclError>)
    ensures
        r matches Ok(m) && entries_view(m@) == doc_attrs(body.structures@),
{
    let items = &body.structures;
    let mut m: Vec<(String, HclValue)> = Vec::new();
    let mut i: usize = 0;
    while i < items.len()
        invariant
            i <= items.len(),
            items@ == body.structures@,
            entries_view(m@) == doc_attrs(items@.take(i as int)),
        decreases items.len() - i,
    {
        proof {
            assert(items@.take(i + 1).drop_last() =~= items@.take(i as int));
        }
        match &items[i] {
            TreeItem::Attribute(a) => {
                let v = match expression_to_value(&a.expr) {
                    Ok(v) => v,
                    Err(e) => return Err(e),
                };
                object_insert(&mut m, copy_string(&a.key), v);
            },
            TreeItem::Block(_) => {},
        }
        i = i + 1;
    }
    assert(items@.take(items@.len() as int) =~= items@);
    Ok(m)
}

fn copy_labels(v: &Vec<String>) -> (r: Vec<String>)
    ensures
        views(r@) == views(v@),
{
    crate::text::copy_strings(v)
}

/// The document block of an HCL block, with its nested blocks.
fn block_to_hcl_block(block: &TreeBlock) -> (r: Result<HclBlock, HclError>)
    ensures
        r matches Ok(h) && doc_block_view(h) == doc_block_of(*block),
    decreases block,
{
    let attributes = match doc_attributes(&block.body) {
        Ok(a) => a,
        Err(e) => return Err(e),
    };
    let items = &block.body.structures;
    let mut nested: Vec<HclBlock> = Vec::new();
    let mut i: usize = 0;
    while i < items.len()
        invariant
            i <= items.len(),
            items@ == block.body.structures@,
            doc_blocks_view(nested@) == doc_nested(items@.take(i as int)),
        decreases items.len() - i,
    {
        proof {
            assert(items@.take(i + 1).drop_last() =~= items@.take(i as int));
        }
        match &items[i] {
            TreeItem::Block(b) => {
                proof {
                    assert(decreases_to!(*block => block.body));
                    assert(decreases_to!(block.body => block.body.structures));
                    assert(decreases_to!(block.body.structures => block.body.structures@));
                    assert(decreases_to!(block.body.structures@ => block.body.structures@[i as int]));
                    assert(decreases_to!(block.body.structures@[i as int] => *b));
                }
                let h = match block_to_hcl_block(b) {
                    Ok(h) => h,
                    Err(e) => return Err(e),
                };
                let ghost before = nested@;
                nested.push(h);
                proof {
                    assert(nested@.drop_last() =~= before);
                }
            },
            TreeItem::Attribute(_) => {},
        }
        i = i + 1;
    }
    assert(items@.take(items@.len() as int) =~= items@);
    Ok(HclBlock {
        identifier: copy_string(&block.identifier),
        labels: copy_labels(&block.labels),
        attributes,
        nested_blocks: nested,
    })
}

/// The document of a body: its blocks, with nested blocks, and its attributes.
pub fn body_to_document(body: &TreeBody) -> (r: Result<HclDocument, HclError>)
    ensures
        r matches Ok(d) && doc_view(d) == doc_of(*body),
{
    let items = &body.structures;
    let mut blocks: Vec<HclBlock> = Vec::new();
    let mut i: usize = 0;
    while i < items.len()
        invariant
            i <= items.len(),
            items@ == body.structures@,
            doc_blocks_view(blocks@) == doc_nested(items@.take(i as int)),
        decreases items.len() - i,
    {
        proof {
            assert(items@.take(i + 1).drop_last() =~= items@.take(i as int));
        }
        match &items[i] {
            TreeItem::Block(b) => {
                let h = match block_to_hcl_block(b) {
                    Ok(h) => h,
                    Err(e) => return Err(e),
                };
                let ghost before = blocks@;
                blocks.push(h);
                proof {
                    assert(blocks@.drop_last() =~= before);
                }
            },
            TreeItem::Attribute(_) => {},
        }
        i = i + 1;
    }
    assert(items@.take(items@.len() as int) =~= items@);
    let attributes = match doc_attributes(body) {
        Ok(a) => a,
        Err(e) => return Err(e),
    };
    Ok(HclDocument { blocks, attributes })
}

/// Parses HCL text; text that HCL rejects is a parse error with its message.
pub fn parse(content: &str) -> (r: Result<TreeBody, HclError>)
    ensures
        match hcl_parse(content@) {
            Some(b) => r == Ok::<TreeBody, HclError>(b),
            None => r matches Err(HclError::ParseError(m)) && m@ == crate::hcl_tree::hcl_error_text(content@),
        },
{
    match parse_hcl(content) {
        Ok(b) => Ok(b),
        Err(m) => Err(HclError::ParseError(m)),
    }
}

/// Parses HCL text into a document.
pub fn parse_document(content: &str) -> (r: Result<HclDocument, HclError>)
    ensures
        match hcl_parse(content@) {
            Some(b) => r matches Ok(d) && doc_view(d) == doc_of(b),
            None => r matches Err(HclError::ParseError(m)) && m@ == crate::hcl_tree::hcl_error_text(content@),
        },
{
    match parse(content) {
        Ok(body) => body_to_document(&body),
        Err(e) => Err(e),
    }
}

/// The blocks among `items` with identifier `id`, in order.
pub open spec fn blocks_named(items: Seq<TreeItem>, id: Seq<char>) -> Seq<TreeBlock>
    decreases items.len(),
{
    if items.len() == 0 {
        Seq::empty()
    } else {
        let prev = blocks_named(items.drop_last(), id);
        match items.last() {
            TreeItem::Block(b) => if b.identifier@ == id {
                prev.push(b)
            } else {
                prev
            },
            TreeItem::Attribute(_) => prev,
        }
    }
}

/// The top-level attributes of a body as a map from key to expression, a later key
/// replacing an earlier one.
pub open spec fn attr_exprs(items: Seq<TreeItem>) -> Seq<(Seq<char>, TreeExpr)>
    decreases items.len(),
{
    if items.len() == 0 {
        Seq::empty()
    } else {
        let prev = attr_exprs(items.drop_last());
        match items.last() {
            TreeItem::Attribute(a) => insert_entry(prev, a.key@, a.expr),
            TreeItem::Block(_) => prev,
        }
    }
}

/// The first block of `bs` whose labels are `labels`.
pub open spec fn block_with_labels(bs: Seq<TreeBlock>, labels: Seq<Seq<char>>) -> Option<TreeBlock> {
    match crate::seqs::first_index(bs, |b: TreeBlock| views(b.labels@) == labels) {
        Some(i) => Some(bs[i]),
        None => None,
    }
}

/// Parses HCL text once and finds blocks and attributes in it.
pub struct HclParser {
    pub content: String,
    pub body: Option<TreeBody>,
}

impl HclParser {
    /// The parsed body is the one HCL gives for the text.
    pub open spec fn wf(&self) -> bool {
        self.body matches Some(b) ==> hcl_parse(self.content@) == Some(b)
    }

    /// A parser for `content`, not parsed yet.
    pub fn new(content: String) -> (r: Self)
        ensures
            r.wf(),
            r.content@ == content@,
            r.body is None,
    {
        HclParser { content, body: None }
    }

    /// Parses the text, once.
    pub fn parse(&mut self) -> (r: Result<&TreeBody, HclError>)
        requires
            old(self).wf(),
        ensures
            final(self).wf(),
            final(self).content == old(self).content,
            match hcl_parse(old(self).content@) {
                Some(b) => r == Ok::<&TreeBody, HclError>(&b),
                None => r matches Err(HclError::ParseError(m)) && m@ == crate::hcl_tree::hcl_error_text(old(self).content@),
            },
    {
        if self.body.is_none() {
            match parse(self.content.as_str()) {
                Ok(b) => {
                    self.body = Some(b);
                },
                Err(e) => return Err(e),
            }
        }
        match &self.body {
            Some(b) => Ok(b),
            None => Err(HclError::ParseError(String::new())),
        }
    }

    /// The blocks with identifier `identifier`, in order.
    pub fn get_blocks(&mut self, identifier: &str) -> (r: Result<Vec<&TreeBlock>, HclError>)
        requires
            old(self).wf(),
        ensures
            final(self).wf(),
            final(self).content == old(self).content,
            match hcl_parse(old(self).content@) {
                Some(b) => r matches Ok(v) && v@.map_values(|x: &TreeBlock| *x) == blocks_named(b.structures@, identifier@),
                None => r matches Err(HclError::ParseError(m)) && m@ == crate::hcl_tree::hcl_error_text(old(self).content@),
            },
    {
        let body = match self.parse() {
            Ok(b) => b,
            Err(e) => return Err(e),
        };
        let items = &body.structures;
        let mut out: Vec<&TreeBlock> = Vec::new();
        let mut i: usize = 0;
        while i < items.len()
            invariant
                i <= items.len(),
                out@.map_values(|x: &TreeBlock| *x) == blocks_named(items@.take(i as int), identifier@),
            decreases items.len() - i,
        {
            proof {
                assert(items@.take(i + 1).drop_last() =~= items@.take(i as int));
            }
            match &items[i] {
                TreeItem::Block(b) => {
                    if string_eq_str(&b.identifier, identifier) {
                        out.push(b);
                    }
                },
                TreeItem::Attribute(_) => {},
            }
            i = i + 1;
            assert(out@.map_values(|x: &TreeBlock| *x) =~= blocks_named(items@.take(i as int), identifier@));
        }
        assert(items@.take(items@.len() as int) =~= items@);
        Ok(out)
    }

    /// The top-level attributes, by key.
    pub fn get_attributes(&mut self) -> (r: Result<Vec<(String, &TreeExpr)>, HclError>)
        requires
            old(self).wf(),
        ensures
            final(self).wf(),
            final(self).content == old(self).content,
            match hcl_parse(old(self).content@) {
                Some(b) => r matches Ok(v) && v@.map_values(|x: (String, &TreeExpr)| (x.0@, *x.1)) == attr_exprs(b.structures@),
                None => r matches Err(HclError::ParseError(m)) && m@ == crate::hcl_tree::hcl_error_text(old(self).content@),
            },
    {
        let body = match self.parse() {
            Ok(b) => b,
            Err(e) => return Err(e),
        };
        let items = &body.structures;
        let mut out: Vec<(String, &TreeExpr)> = Vec::new();
        let mut i: usize = 0;
        while i < items.len()
            invariant
                i <= items.len(),
                out@.map_values(|x: (String, &TreeExpr)| (x.0@, *x.1)) == attr_exprs(items@.take(i as int)),
            decreases items.len() - i,
        {
            proof {
                assert(items@.take(i + 1).drop_last() =~= items@.take(i as int));
            }
            match &items[i] {
                TreeItem::Attribute(a) => {
                    expr_insert(&mut out, copy_string(&a.key), &a.expr);
                },
                TreeItem::Block(_) => {},
            }
            i = i + 1;
        }
        assert(items@.take(items@.len() as int) =~= items@);
        Ok(out)
    }

    /// The first block with identifier `identifier` and exactly the labels `labels`.
    #[verifier::loop_isolation(false)]
    pub fn find_block(&mut self, identifier: &str, labels: &[&str]) -> (r: Result<Option<&TreeBlock>, HclError>)
        requires
            old(self).wf(),
        ensures
            final(self).wf(),
            final(self).content == old(self).content,
            match hcl_parse(old(self).content@) {
                Some(b) => r matches Ok(o) && match block_with_labels(
                    blocks_named(b.structures@, identifier@),
                    labels@.map_values(|l: &str| l@),
                ) {
                    Some(x) => o == Some(&x),
                    None => o is None,
                },
                None => r matches Err(HclError::ParseError(m)) && m@ == crate::hcl_tree::hcl_error_text(old(self).content@),
            },
    {
        let blocks = match self.get_blocks(identifier) {
            Ok(v) => v,
            Err(e) => return Err(e),
        };
        let ghost bs = blocks@.map_values(|x: &TreeBlock| *x);
        let ghost want = labels@.map_values(|l: &str| l@);
        let ghost pred = |b: TreeBlock| views(b.labels@) == want;
        let mut i: usize = 0;
        while i < blocks.len()
            invariant
                i <= blocks.len(),
                bs == blocks@.map_values(|x: &TreeBlock| *x),
                want == labels@.map_values(|l: &str| l@),
                pred == |b: TreeBlock| views(b.labels@) == want,
                forall|j: int| 0 <= j < i ==> !pred(bs[j]),
            decreases blocks.len() - i,
        {
            if labels_equal(&blocks[i].labels, labels) {
                proof {
                    crate::seqs::lemma_first_index_at(bs, pred, i as int);
                }
                return Ok(Some(blocks[i]));
            }
            i = i + 1;
        }
        proof {
            crate::seqs::lemma_first_index_none(bs, pred);
        }
        Ok(None)
    }
}

/// Whether a block's labels are exactly `labels`.
fn labels_equal(have: &Vec<String>, labels: &[&str]) -> (r: bool)
    ensures
        r == (views(have@) == labels@.map_values(|l: &str| l@)),
{
    let ghost want = labels@.map_values(|l: &str| l@);
    if have.len() != labels.len() {
        assert(views(have@).len() != want.len());
        return false;
    }
    let mut i: usize = 0;
    while i < have.len()
        invariant
            i <= have.len(),
            have@.len() == labels@.len(),
            want == labels@.map_values(|l: &str| l@),
            forall|j: int| 0 <= j < i ==> have@[j]@ == labels@[j]@,
        decreases have.len() - i,
    {
        if !string_eq_str(&have[i], labels[i]) {
            assert(views(have@)[i as int] != want[i as int]);
            return false;
        }
        i = i + 1;
    }
    assert(views(have@) =~= want);
    true
}

/// Stores an expression under `k`: replaces the one of an existing key, else appends.
fn expr_insert<'a>(m: &mut Vec<(String, &'a TreeExpr)>, k: String, e: &'a TreeExpr)
    ensures
        final(m)@.map_values(|x: (String, &TreeExpr)| (x.0@, *x.1))
            == insert_entry(old(m)@.map_values(|x: (String, &TreeExpr)| (x.0@, *x.1)), k@, *e),
{
    let ghost s = m@.map_values(|x: (String, &TreeExpr)| (x.0@, *x.1));
    let kc = chars_of(k.as_str());
    let mut i: usize = 0;
    while i < m.len()
        invariant
            i <= m.len(),
            m@ == old(m)@,
            s == m@.map_values(|x: (String, &TreeExpr)| (x.0@, *x.1)),
            kc@ == k@,
            forall|j: int| 0 <= j < i ==> !crate::seqs::key_is::<TreeExpr>(k@)(s[j]),
        decreases m.len() - i,
    {
        let c = chars_of(m[i].0.as_str());
        if crate::text::chars_eq(c.as_slice(), kc.as_slice()) {
            proof {
                crate::seqs::lemma_first_index_at(s, crate::seqs::key_is::<TreeExpr>(k@), i as int);
            }
            let ghost kv = k@;
            m.set(i, (k, e));
            assert(m@.map_values(|x: (String, &TreeExpr)| (x.0@, *x.1)) =~= s.update(i as int, (kv, *e)));
            return;
        }
        i = i + 1;
    }
    proof {
        crate::seqs::lemma_first_index_none(s, crate::seqs::key_is::<TreeExpr>(k@));
    }
    let ghost kv = k@;
    m.push((k, e));
    assert(m@.map_values(|x: (String, &TreeExpr)| (x.0@, *x.1)) =~= s.push((kv, *e)));
}

/// Something that checks an HCL structure.
pub trait HclValidator {
    fn validate(&self) -> Result<(), HclError>;
}

/// Whether an item is a block with identifier `id`.
pub open spec fn is_block_named(item: TreeItem, id: Seq<char>) -> bool {
    match item {
        TreeItem::Block(b) => b.identifier@ == id,
        TreeItem::Attribute(_) => false,
    }
}

/// Whether an item is an attribute with key `k`.
pub open spec fn is_attr_named(item: TreeItem, k: Seq<char>) -> bool {
    match item {
        TreeItem::Attribute(a) => a.key@ == k,
        TreeItem::Block(_) => false,
    }
}

/// The identifiers of the top-level blocks among `items`.
pub open spec fn block_ids(items: Seq<TreeItem>) -> Set<Seq<char>> {
    Set::new(|id: Seq<char>| exists|i: int| 0 <= i < items.len() && is_block_named(#[trigger] items[i], id))
}

/// The keys of the top-level attributes among `items`.
pub open spec fn attr_keys(items: Seq<TreeItem>) -> Set<Seq<char>> {
    Set::new(|k: Seq<char>| exists|i: int| 0 <= i < items.len() && is_attr_named(#[trigger] items[i], k))
}

/// A check on a body.
#[derive(Debug)]
pub enum BodyRule {
    /// Blocks with these identifiers must be there.
    RequiredBlocks(Vec<String>),
    /// Attributes with these keys must be there.
    RequiredAttributes(Vec<String>),
}

/// The first of `required` that is not in `found`.
pub open spec fn first_missing(required: Seq<Seq<char>>, found: Set<Seq<char>>) -> Option<Seq<char>>
    decreases required.len(),
{
    if required.len() == 0 {
        None
    } else {
        match first_missing(required.drop_last(), found) {
            Some(x) => Some(x),
            None => if !found.contains(required.last()) {
                Some(required.last())
            } else {
                None
            },
        }
    }
}

proof fn lemma_first_missing_stays(required: Seq<Seq<char>>, found: Set<Seq<char>>, i: int, j: int)
    requires
        0 <= i <= j <= required.len(),
        first_missing(required.take(i), found) is Some,
    ensures
        first_missing(required.take(j), found) == first_missing(required.take(i), found),
    decreases j - i,
{
    if j > i {
        lemma_first_missing_stays(required, found, i, j - 1);
        assert(required.take(j).drop_last() =~= required.take(j - 1));
    }
}

/// The identifiers of the blocks, or the keys of the attributes, among `items`.
pub open spec fn found_of(items: Seq<TreeItem>, blocks: bool) -> Set<Seq<char>> {
    if blocks {
        block_ids(items)
    } else {
        attr_keys(items)
    }
}

/// The message of a rule that a body breaks, if it breaks it.
pub open spec fn rule_failure(rule: BodyRule, items: Seq<TreeItem>) -> Option<Seq<char>> {
    match rule {
        BodyRule::RequiredBlocks(ids) => match first_missing(views(ids@), block_ids(items)) {
            Some(x) => Some("block '"@ + x + "'"@),
            None => None,
        },
        BodyRule::RequiredAttributes(keys) => match first_missing(views(keys@), attr_keys(items)) {
            Some(x) => Some("attribute '"@ + x + "'"@),
            None => None,
        },
    }
}

/// The first failure among rules, in order.
pub open spec fn rules_failure(rules: Seq<BodyRule>, items: Seq<TreeItem>) -> Option<Seq<char>>
    decreases rules.len(),
{
    if rules.len() == 0 {
        None
    } else {
        match rules_failure(rules.drop_last(), items) {
            Some(m) => Some(m),
            None => rule_failure(rules.last(), items),
        }
    }
}

/// Whether a top-level block has identifier `id`.
fn has_block(items: &Vec<TreeItem>, id: &String) -> (r: bool)
    ensures
        r == block_ids(items@).contains(id@),
{
    let mut i: usize = 0;
    while i < items.len()
        invariant
            i <= items.len(),
            forall|j: int| 0 <= j < i ==> !is_block_named(#[trigger] items@[j], id@),
        decreases items.len() - i,
    {
        match &items[i] {
            TreeItem::Block(b) => {
                if crate::text::string_eq(&b.identifier, id) {
                    assert(is_block_named(items@[i as int], id@));
                    assert(block_ids(items@).contains(id@));
                    return true;
                }
            },
            TreeItem::Attribute(_) => {},
        }
        i = i + 1;
    }
    false
}

/// Whether a top-level attribute has key `k`.
fn has_attr(items: &Vec<TreeItem>, k: &String) -> (r: bool)
    ensures
        r == attr_keys(items@).contains(k@),
{
    let mut i: usize = 0;
    while i < items.len()
        invariant
            i <= items.len(),
            forall|j: int| 0 <= j < i ==> !is_attr_named(#[trigger] items@[j], k@),
        decreases items.len() - i,
    {
        match &items[i] {
            TreeItem::Attribute(a) => {
                if crate::text::string_eq(&a.key, k) {
                    assert(is_attr_named(items@[i as int], k@));
                    assert(attr_keys(items@).contains(k@));
                    return true;
                }
            },
            TreeItem::Block(_) => {},
        }
        i = i + 1;
    }
    false
}

/// The position of the first of `required` that is not among the block identifiers
/// (or the attribute keys) of `items`.
fn first_absent(required: &Vec<String>, items: &Vec<TreeItem>, blocks: bool) -> (r: Option<usize>)
    ensures
        match first_missing(views(required@), found_of(items@, blocks)) {
            Some(x) => r matches Some(i) && i < required@.len() && required@[i as int]@ == x,
            None => r is None,
        },
{
    let ghost rv = views(required@);
    let ghost found = found_of(items@, blocks);
    let mut i: usize = 0;
    while i < required.len()
        invariant
            i <= required.len(),
            rv == views(required@),
            found == found_of(items@, blocks),
            first_missing(rv.take(i as int), found) is None,
        decreases required.len() - i,
    {
        proof {
            assert(rv.take(i + 1).drop_last() =~= rv.take(i as int));
        }
        let present = if blocks { has_block(items, &required[i]) } else { has_attr(items, &required[i]) };
        if !present {
            proof {
                assert(first_missing(rv.take(i + 1), found) == Some(rv[i as int]));
                lemma_first_missing_stays(rv, found, i + 1, rv.len() as int);
                assert(rv.take(rv.len() as int) =~= rv);
            }
            return Some(i);
        }
        i = i + 1;
    }
    assert(rv.take(rv.len() as int) =~= rv);
    None
}

/// Checks a body against rules.
pub struct BodyValidator<'a> {
    pub body: &'a TreeBody,
    pub rules: Vec<BodyRule>,
}

impl<'a> BodyValidator<'a> {
    /// A validator without rules.
    pub fn new(body: &'a TreeBody) -> (r: Self)
        ensures
            r.body == body,
            r.rules@.len() == 0,
    {
        BodyValidator { body, rules: Vec::new() }
    }

    /// Adds a rule.
    pub fn add_rule(self, rule: BodyRule) -> (r: Self)
        ensures
            r.body == self.body,
            r.rules@ == self.rules@.push(rule),
    {
        let mut s = self;
        s.rules.push(rule);
        s
    }

    /// Requires blocks with these identifiers.
    pub fn require_blocks(self, identifiers: &[&str]) -> (r: Self)
        ensures
            r.body == self.body,
            r.rules@.len() == self.rules@.len() + 1,
            r.rules@.drop_last() == self.rules@,
            r.rules@.last() matches BodyRule::RequiredBlocks(ids) && views(ids@) == identifiers@.map_values(|s: &str| s@),
    {
        let ids = strings_of(identifiers);
        let mut s = self;
        let ghost before = s.rules@;
        s.rules.push(BodyRule::RequiredBlocks(ids));
        assert(s.rules@.drop_last() =~= before);
        s
    }

    /// Requires attributes with these keys.
    pub fn require_attributes(self, keys: &[&str]) -> (r: Self)
        ensures
            r.body == self.body,
            r.rules@.len() == self.rules@.len() + 1,
            r.rules@.drop_last() == self.rules@,
            r.rules@.last() matches BodyRule::RequiredAttributes(ks) && views(ks@) == keys@.map_values(|s: &str| s@),
    {
        let ks = strings_of(keys);
        let mut s = self;
        let ghost before = s.rules@;
        s.rules.push(BodyRule::RequiredAttributes(ks));
        assert(s.rules@.drop_last() =~= before);
        s
    }

    /// Checks the rules in order; the first failure is a missing-field error.
    pub fn validate(&self) -> (r: Result<(), HclError>)
        ensures
            match rules_failure(self.rules@, self.body.structures@) {
                Some(m) => r matches Err(HclError::MissingField(x)) && x@ == m,
                None => r is Ok,
            },
    {
        let items = &self.body.structures;
        let mut i: usize = 0;
        while i < self.rules.len()
            invariant
                i <= self.rules.len(),
                items@ == self.body.structures@,
                rules_failure(self.rules@.take(i as int), items@) is None,
            decreases self.rules.len() - i,
        {
            proof {
                assert(self.rules@.take(i + 1).drop_last() =~= self.rules@.take(i as int));
            }
            let failure = match &self.rules[i] {
                BodyRule::RequiredBlocks(ids) => match first_absent(ids, items, true) {
                    Some(j) => {
                        let mut m = String::from_str("block '");
                        append_str(&mut m, ids[j].as_str());
                        append_str(&mut m, "'");
                        Some(m)
                    },
                    None => None,
                },
                BodyRule::RequiredAttributes(keys) => match first_absent(keys, items, false) {
                    Some(j) => {
                        let mut m = String::from_str("attribute '");
                        append_str(&mut m, keys[j].as_str());
                        append_str(&mut m, "'");
                        Some(m)
                    },
                    None => None,
                },
            };
            assert(opt_view(failure) == rule_failure(self.rules@[i as int], items@));
            match failure {
                Some(m) => {
                    proof {
                        lemma_rules_failure_stays(self.rules@, items@, i + 1, self.rules@.len() as int);
                        assert(self.rules@.take(self.rules@.len() as int) =~= self.rules@);
                    }
                    return Err(HclError::MissingField(m));
                },
                None => {},
            }
            i = i + 1;
        }
        assert(self.rules@.take(self.rules@.len() as int) =~= self.rules@);
        Ok(())
    }
}

impl<'a> HclValidator for BodyValidator<'a> {
    /// Checks the rules in order; the first failure is a missing-field error.
    fn validate(&self) -> (r: Result<(), HclError>)
        ensures
            match rules_failure(self.rules@, self.body.structures@) {
                Some(m) => r matches Err(HclError::MissingField(x)) && x@ == m,
                None => r is Ok,
            },
    {
        BodyValidator::validate(self)
    }
}

proof fn lemma_rules_failure_stays(rules: Seq<BodyRule>, items: Seq<TreeItem>, i: int, j: int)
    requires
        0 <= i <= j <= rules.len(),
        rules_failure(rules.take(i), items) is Some,
    ensures
        rules_failure(rules.take(j), items) == rules_failure(rules.take(i), items),
    decreases j - i,
{
    if j > i {
        lemma_rules_failure_stays(rules, items, i, j - 1);
        assert(rules.take(j).drop_last() =~= rules.take(j - 1));
    }
}

/// Strings from string slices.
fn strings_of(v: &[&str]) -> (r: Vec<String>)
    ensures
        views(r@) == v@.map_values(|s: &str| s@),
{
    let mut r: Vec<String> = Vec::new();
    let mut i: usize = 0;
    while i < v.len()
        invariant
            i <= v.len(),
            views(r@) == v@.map_values(|s: &str| s@).take(i as int),
        decreases v.len() - i,
    {
        let ghost before = r@;
        r.push(String::from_str(v[i]));
        assert(views(r@) =~= views(before).push(v@[i as int]@));
        i = i + 1;
        assert(views(r@) =~= v@.map_values(|s: &str| s@).take(i as int));
    }
    assert(v@.map_values(|s: &str| s@).take(i as int) =~= v@.map_values(|s: &str| s@));
    r
}

/// Checks a block.
pub struct BlockValidator<'a> {
    pub block: &'a TreeBlock,
}

impl<'a> BlockValidator<'a> {
    pub fn new(block: &'a TreeBlock) -> (r: Self)
        ensures
            r.block == block,
    {
        BlockValidator { block }
    }

    /// Fails unless the block has exactly `expected` labels.
    pub fn validate_label_count(&self, expected: usize) -> (r: Result<(), HclError>)
        ensures
            self.block.labels@.len() == expected ==> r is Ok,
            self.block.labels@.len() != expected ==> (r matches Err(HclError::ValidationError(m))
                && m@ == "Block '"@ + self.block.identifier@ + "' expected "@ + crate::text::decimal(expected as nat)
                + " labels, got "@ + crate::text::decimal(self.block.labels@.len())),
    {
        let actual = self.block.labels.len();
        if actual != expected {
            let mut m = String::from_str("Block '");
            append_str(&mut m, self.block.identifier.as_str());
            append_str(&mut m, "' expected ");
            let e = crate::text::decimal_exec(expected as u64);
            append_str(&mut m, e.as_str());
            append_str(&mut m, " labels, got ");
            let a = crate::text::decimal_exec(actual as u64);
            append_str(&mut m, a.as_str());
            return Err(HclError::ValidationError(m));
        }
        Ok(())
    }

    /// Fails on the first of `required` that the block has no attribute for.
    pub fn validate_required_attributes(&self, required: &[&str]) -> (r: Result<(), HclError>)
        ensures
            match first_missing(required@.map_values(|s: &str| s@), attr_keys(self.block.body.structures@)) {
                Some(x) => r matches Err(HclError::MissingField(m)) && m@ == "Block '"@ + self.block.identifier@
                    + "' missing required attribute '"@ + x + "'"@,
                None => r is Ok,
            },
    {
        let req = strings_of(required);
        match first_absent(&req, &self.block.body.structures, false) {
            Some(j) => {
                let mut m = String::from_str("Block '");
                append_str(&mut m, self.block.identifier.as_str());
                append_str(&mut m, "' missing required attribute '");
                append_str(&mut m, req[j].as_str());
                append_str(&mut m, "'");
                Err(HclError::MissingField(m))
            },
            None => Ok(()),
        }
    }

    /// Fails when the block has no attribute `key`, or when `predicate` rejects its
    /// expression.
    pub fn validate_attribute<F: Fn(&TreeExpr) -> bool>(&self, key: &str, predicate: F) -> (r: Result<(), HclError>)
        requires
            forall|e: &TreeExpr| predicate.requires((e,)),
        ensures
            match first_attr(self.block.body.structures@, key@) {
                None => r matches Err(HclError::MissingField(k)) && k@ == key@,
                Some(a) => match r {
                    Ok(()) => predicate.ensures((&a.expr,), true),
                    Err(HclError::ValidationError(m)) => predicate.ensures((&a.expr,), false)
                        && m@ == "Attribute '"@ + key@ + "' in block '"@ + self.block.identifier@ + "' failed validation"@,
                    Err(_) => false,
                },
            },
    {
        match find_attr(&self.block.body, key) {
            None => Err(HclError::MissingField(String::from_str(key))),
            Some(a) => {
                if !predicate(&a.expr) {
                    let mut m = String::from_str("Attribute '");
                    append_str(&mut m, key);
                    append_str(&mut m, "' in block '");
                    append_str(&mut m, self.block.identifier.as_str());
                    append_str(&mut m, "' failed validation");
                    return Err(HclError::ValidationError(m));
                }
                Ok(())
            },
        }
    }
}

/// Whether an expression is a non-empty plain string.
pub fn non_empty_string(expr: &TreeExpr) -> (r: bool)
    ensures
        r == (expr.kind matches ExprKind::Str(s) && s@.len() > 0),
{
    match &expr.kind {
        ExprKind::Str(s) => s.unicode_len() > 0,
        _ => false,
    }
}

/// Whether an expression is a plain string that contains `pattern`.
pub fn string_matches_pattern(pattern: &str, expr: &TreeExpr) -> (r: bool)
    ensures
        r == (expr.kind matches ExprKind::Str(s) && crate::text::contains_seq(s@, pattern@)),
{
    match &expr.kind {
        ExprKind::Str(s) => {
            let sc = chars_of(s.as_str());
            let pc = chars_of(pattern);
            crate::text::contains_exec(sc.as_slice(), pc.as_slice())
        },
        _ => false,
    }
}

impl HclValue {
    /// The string, if this is one.
    pub fn as_string(&self) -> (r: Option<&String>)
        ensures
            match *self {
                HclValue::String(s) => r == Some(&s),
                _ => r is None,
            },
    {
        match self {
            HclValue::String(s) => Some(s),
            _ => None,
        }
    }

    /// The text of the number, if this is one.
    pub fn as_number(&self) -> (r: Option<&String>)
        ensures
            match *self {
                HclValue::Number(n) => r == Some(&n),
                _ => r is None,
            },
    {
        match self {
            HclValue::Number(n) => Some(n),
            _ => None,
        }
    }

    /// The flag, if this is one.
    pub fn as_bool(&self) -> (r: Option<bool>)
        ensures
            match *self {
                HclValue::Bool(b) => r == Some(b),
                _ => r is None,
            },
    {
        match self {
            HclValue::Bool(b) => Some(*b),
            _ => None,
        }
    }

    /// The elements, if this is a list.
    pub fn as_array(&self) -> (r: Option<&Vec<HclValue>>)
        ensures
            match *self {
                HclValue::Array(xs) => r == Some(&xs),
                _ => r is None,
            },
    {
        match self {
            HclValue::Array(xs) => Some(xs),
            _ => None,
        }
    }

    /// The entries, if this is an object.
    pub fn as_object(&self) -> (r: Option<&Vec<(String, HclValue)>>)
        ensures
            match *self {
                HclValue::Object(kv) => r == Some(&kv),
                _ => r is None,
            },
    {
        match self {
            HclValue::Object(kv) => Some(kv),
            _ => None,
        }
    }
}

} // verus!
