//! Preparing a Packer build: the variables file it gets, the template file it runs,
//! the directory it runs in, and its command line.
use crate::cli_args::push_arg;
use crate::paths::{extension, extension_exec, file_name, file_name_exec, path_join, path_join_exec};
use crate::seqs::{first_index, lemma_first_index, lemma_first_index_at, lemma_first_index_none};
use crate::terraform::{debug_path, debug_path_exec};
use crate::terraform_parse::InfraError;
use crate::text::{
    append_chars, append_str, chars_eq_str, chars_of, contains_exec, contains_seq, ends_with,
    ends_with_exec, find_exec, find_seq, is_digit, occurs_at, starts_with, starts_with_exec,
    string_eq_str, views,
};
use vstd::prelude::*;

verus! {

/// Whether every character is an ASCII digit.
pub open spec fn all_digits(s: Seq<char>) -> bool {
    forall|i: int| 0 <= i < s.len() ==> is_digit(#[trigger] s[i])
}

/// `s` without one leading `+` or `-`.
pub open spec fn unsigned(s: Seq<char>) -> Seq<char> {
    if s.len() > 0 && (s[0] == '+' || s[0] == '-') {
        s.skip(1)
    } else {
        s
    }
}

/// Whether `c` is the lower-case ASCII letter `l` in either case.
pub open spec fn same_letter(c: char, l: char) -> bool {
    c == l || (('a' <= l && l <= 'z') && (c as u32) + 32 == (l as u32))
}

/// Whether `s` spells the lower-case word `w`, ignoring ASCII case.
pub open spec fn spells(s: Seq<char>, w: Seq<char>) -> bool {
    s.len() == w.len() && forall|i: int| 0 <= i < s.len() ==> same_letter(#[trigger] s[i], w[i])
}

/// Whether `c` marks an exponent.
pub open spec fn is_exp_mark(c: char) -> bool {
    c == 'e' || c == 'E'
}

/// A mantissa: `Digit+`, `Digit+ '.' Digit*` or `Digit* '.' Digit+`.
pub open spec fn mantissa_ok(m: Seq<char>) -> bool {
    match find_seq(m, "."@) {
        None => m.len() > 0 && all_digits(m),
        Some(d) => all_digits(m.take(d)) && all_digits(m.skip(d + 1)) && (d > 0 || m.len() > d + 1),
    }
}

/// An exponent after its mark: an optional sign, then one or more digits.
pub open spec fn exponent_ok(x: Seq<char>) -> bool {
    unsigned(x).len() > 0 && all_digits(unsigned(x))
}

/// A number: a mantissa, then an optional exponent.
pub open spec fn number_ok(s: Seq<char>) -> bool {
    match first_index(s, |c: char| is_exp_mark(c)) {
        Some(i) => mantissa_ok(s.take(i)) && exponent_ok(s.skip(i + 1)),
        None => mantissa_ok(s),
    }
}

/// The texts that `f64::from_str` accepts, by the grammar its documentation gives: an
/// optional sign, then `inf`, `infinity`, `nan` (in any case) or a number. Every text
/// that `i64::from_str` accepts is among them.
pub open spec fn float_text(s: Seq<char>) -> bool {
    let b = unsigned(s);
    spells(b, "inf"@) || spells(b, "infinity"@) || spells(b, "nan"@) || number_ok(b)
}

/// Whether `s[from..to]` is all digits.
fn all_digits_exec(s: &[char], from: usize, to: usize) -> (r: bool)
    requires
        from <= to <= s@.len(),
    ensures
        r == all_digits(s@.subrange(from as int, to as int)),
{
    let ghost t = s@.subrange(from as int, to as int);
    let mut i: usize = from;
    while i < to
        invariant
            from <= i <= to <= s@.len(),
            t == s@.subrange(from as int, to as int),
            forall|k: int| 0 <= k < i - from ==> is_digit(#[trigger] t[k]),
        decreases to - i,
    {
        if !('0' <= s[i] && s[i] <= '9') {
            assert(!is_digit(t[i - from]));
            return false;
        }
        assert(is_digit(t[i - from]));
        i = i + 1;
    }
    true
}

/// Whether `s[from..]` spells the lower-case word `w`, ignoring ASCII case.
fn spells_exec(s: &[char], from: usize, w: &str) -> (r: bool)
    requires
        from <= s@.len(),
    ensures
        r == spells(s@.skip(from as int), w@),
{
    let wc = chars_of(w);
    let ghost t = s@.skip(from as int);
    if s.len() - from != wc.len() {
        return false;
    }
    let mut i: usize = 0;
    while i < wc.len()
        invariant
            i <= wc@.len(),
            wc@ == w@,
            t == s@.skip(from as int),
            t.len() == wc@.len(),
            from + wc@.len() == s@.len(),
            from + wc.len() == s.len(),
            forall|k: int| 0 <= k < i ==> same_letter(#[trigger] t[k], wc@[k]),
        decreases wc.len() - i,
    {
        let c = s[from + i];
        let l = wc[i];
        assert(t[i as int] == c);
        let ok = c == l || (('a' <= l && l <= 'z') && (c as u32) == (l as u32) - 32);
        if !ok {
            return false;
        }
        i = i + 1;
    }
    true
}

/// Whether the text `s[from..]` is a number.
fn number_exec(s: &[char], from: usize) -> (r: bool)
    requires
        from <= s@.len(),
    ensures
        r == number_ok(s@.skip(from as int)),
{
    let ghost b = s@.skip(from as int);
    let ghost p = |c: char| is_exp_mark(c);
    let mut i: usize = from;
    while i < s.len() && s[i] != 'e' && s[i] != 'E'
        invariant
            from <= i <= s@.len(),
            b == s@.skip(from as int),
            forall|k: int| 0 <= k < i - from ==> !is_exp_mark(#[trigger] b[k]),
        decreases s.len() - i,
    {
        assert(!is_exp_mark(b[i - from]));
        i = i + 1;
    }
    let mantissa_end = i;
    if i < s.len() {
        proof {
            assert(is_exp_mark(b[i - from]));
            lemma_first_index_at(b, p, i - from);
        }
    } else {
        proof {
            assert forall|k: int| 0 <= k < b.len() implies !p(b[k]) by {
                assert(!is_exp_mark(b[k]));
            }
            lemma_first_index_none(b, p);
        }
    }
    let ghost m = b.take(mantissa_end - from);
    let mv = crate::text::slice_chars(s, from, mantissa_end);
    assert(mv@ =~= m);
    let dot = chars_of(".");
    proof {
        reveal_strlit(".");
    }
    assert(dot@.len() == 1);
    let mantissa_ok_now = match find_exec(mv.as_slice(), dot.as_slice()) {
        None => mv.len() > 0 && all_digits_exec(mv.as_slice(), 0, mv.len()),
        Some(d) => {
            assert(mv@.subrange(0, d as int) =~= m.take(d as int));
            assert(mv@.subrange(d + 1, mv@.len() as int) =~= m.skip(d + 1));
            all_digits_exec(mv.as_slice(), 0, d) && all_digits_exec(mv.as_slice(), d + 1, mv.len()) && (d > 0
                || mv.len() > d + 1)
        },
    };
    assert(mv@.subrange(0, mv@.len() as int) =~= m);
    if !mantissa_ok_now {
        return false;
    }
    if mantissa_end == s.len() {
        assert(m =~= b);
        return true;
    }
    // the exponent
    let ghost x = b.skip(mantissa_end - from + 1);
    assert(x =~= s@.skip(mantissa_end + 1));
    let mut start = mantissa_end + 1;
    if start < s.len() && (s[start] == '+' || s[start] == '-') {
        start = start + 1;
    }
    assert(unsigned(x) =~= s@.subrange(start as int, s@.len() as int));
    start < s.len() && all_digits_exec(s, start, s.len())
}

/// Whether `f64::from_str` accepts `s`.
pub fn float_text_exec(s: &[char]) -> (r: bool)
    ensures
        r == float_text(s@),
{
    let from: usize = if s.len() > 0 && (s[0] == '+' || s[0] == '-') {
        1
    } else {
        0
    };
    assert(unsigned(s@) =~= s@.skip(from as int));
    spells_exec(s, from, "inf") || spells_exec(s, from, "infinity") || spells_exec(s, from, "nan")
        || number_exec(s, from)
}

/// `v` with each `"` escaped by a backslash.
pub open spec fn escape_quotes(v: Seq<char>) -> Seq<char>
    decreases v.len(),
{
    if v.len() == 0 {
        Seq::empty()
    } else {
        escape_quotes(v.drop_last()) + if v.last() == '"' {
            seq!['\\', '"']
        } else {
            seq![v.last()]
        }
    }
}

/// How a variable's value is written to a variables file: a quoted string, a flag or
/// a number as it is, any other text quoted with its quotes escaped.
pub open spec fn pkrvar_value(v: Seq<char>) -> Seq<char> {
    if starts_with(v, "\""@) && ends_with(v, "\""@) {
        v
    } else if v == "true"@ || v == "false"@ {
        v
    } else if float_text(v) {
        v
    } else {
        "\""@ + escape_quotes(v) + "\""@
    }
}

/// The lines `key = value` of a variables file, in order.
pub open spec fn pkrvars_text(vars: Seq<(Seq<char>, Seq<char>)>) -> Seq<char>
    decreases vars.len(),
{
    if vars.len() == 0 {
        Seq::empty()
    } else {
        pkrvars_text(vars.drop_last()) + vars.last().0 + " = "@ + pkrvar_value(vars.last().1) + "\n"@
    }
}

/// Appends `v` with its quotes escaped.
fn append_escaped(out: &mut String, v: &[char])
    ensures
        final(out)@ == old(out)@ + escape_quotes(v@),
{
    let ghost start = out@;
    let mut i: usize = 0;
    while i < v.len()
        invariant
            i <= v@.len(),
            out@ == start + escape_quotes(v@.take(i as int)),
        decreases v.len() - i,
    {
        proof {
            assert(v@.take(i + 1).drop_last() =~= v@.take(i as int));
        }
        let ghost before = out@;
        if v[i] == '"' {
            let q = ['\\', '"'];
            append_chars(out, &q);
            assert(q@ =~= seq!['\\', '"']);
        } else {
            let one = [v[i]];
            append_chars(out, &one);
            assert(one@ =~= seq![v@[i as int]]);
        }
        assert(out@ =~= start + escape_quotes(v@.take(i + 1)));
        i = i + 1;
    }
    assert(v@.take(v@.len() as int) =~= v@);
}

/// Appends how `v` is written to a variables file.
fn append_pkrvar_value(out: &mut String, v: &str)
    ensures
        final(out)@ == old(out)@ + pkrvar_value(v@),
{
    let c = chars_of(v);
    let q = chars_of("\"");
    proof {
        reveal_strlit("\"");
    }
    let quoted = starts_with_exec(c.as_slice(), q.as_slice()) && ends_with_exec(c.as_slice(), q.as_slice());
    let flag = chars_eq_str(c.as_slice(), "true") || chars_eq_str(c.as_slice(), "false");
    if quoted || flag || float_text_exec(c.as_slice()) {
        append_str(out, v);
    } else {
        let ghost start = out@;
        append_str(out, "\"");
        append_escaped(out, c.as_slice());
        append_str(out, "\"");
        assert(out@ =~= start + pkrvar_value(v@));
    }
}

/// The text of the variables file for `vars`; `None` when there are none, as no
/// file is written then.
pub fn pkrvars_content(vars: &Vec<(String, String)>) -> (r: Option<String>)
    ensures
        vars@.len() == 0 ==> r is None,
        vars@.len() > 0 ==> (r matches Some(t) && t@ == pkrvars_text(crate::string_map::pairs_view(vars@))),
{
    if vars.len() == 0 {
        return None;
    }
    let ghost pv = crate::string_map::pairs_view(vars@);
    let mut out = String::new();
    let mut i: usize = 0;
    assert(pkrvars_text(pv.take(0)) =~= Seq::<char>::empty());
    while i < vars.len()
        invariant
            i <= vars@.len(),
            pv == crate::string_map::pairs_view(vars@),
            out@ == pkrvars_text(pv.take(i as int)),
        decreases vars.len() - i,
    {
        proof {
            assert(pv.take(i + 1).drop_last() =~= pv.take(i as int));
        }
        let ghost before = out@;
        append_str(&mut out, vars[i].0.as_str());
        append_str(&mut out, " = ");
        append_pkrvar_value(&mut out, vars[i].1.as_str());
        append_str(&mut out, "\n");
        assert(out@ =~= pkrvars_text(pv.take(i + 1)));
        i = i + 1;
    }
    assert(pv.take(vars@.len() as int) =~= pv);
    Some(out)
}

/// The arguments of `packer build` in the build directory: timestamps and colours,
/// `-force` when forced, asking on errors, then the template file.
pub open spec fn packer_build_argv(force: bool, template: Seq<char>) -> Seq<Seq<char>> {
    seq!["build"@, "-timestamp-ui"@, "-color=true"@] + (if force {
        seq!["-force"@]
    } else {
        Seq::empty()
    }) + seq!["-on-error=ask"@, template]
}

/// The arguments of `packer build` for the template file `template`.
pub fn packer_build_args(force: bool, template: &str) -> (r: Vec<String>)
    ensures
        views(r@) == packer_build_argv(force, template@),
{
    let mut a: Vec<String> = Vec::new();
    push_arg(&mut a, "build");
    push_arg(&mut a, "-timestamp-ui");
    push_arg(&mut a, "-color=true");
    if force {
        push_arg(&mut a, "-force");
    }
    push_arg(&mut a, "-on-error=ask");
    push_arg(&mut a, template);
    assert(views(a@) =~= packer_build_argv(force, template@));
    a
}

/// Whether a directory entry is a template file: a file with the extension `hcl`
/// whose name does not mention `pkrvars`.
pub open spec fn is_template_entry(path: Seq<char>, is_file: bool) -> bool {
    &&& is_file
    &&& extension(path) == Some("hcl"@)
    &&& file_name(path) matches Some(n) && !contains_seq(n, "pkrvars"@)
}

/// Whether a directory entry is a template file.
fn is_template_entry_exec(path: &str, is_file: bool) -> (r: bool)
    ensures
        r == is_template_entry(path@, is_file),
{
    if !is_file {
        return false;
    }
    let c = chars_of(path);
    let hcl = match extension_exec(c.as_slice()) {
        Some(e) => chars_eq_str(e.as_slice(), "hcl"),
        None => false,
    };
    if !hcl {
        return false;
    }
    match file_name_exec(c.as_slice()) {
        Some(n) => {
            let p = chars_of("pkrvars");
            !contains_exec(n.as_slice(), p.as_slice())
        },
        None => false,
    }
}

/// The template file a build runs: the first entry of the build directory (paths
/// and whether each is a file, in the order the directory lists them) that is a
/// template file.
pub fn choose_template(entries: &Vec<(String, bool)>) -> (r: Result<String, InfraError>)
    ensures
        match first_index(entries@, |e: (String, bool)| is_template_entry(e.0@, e.1)) {
            Some(i) => r matches Ok(p) && p@ == entries@[i].0@,
            None => r matches Err(InfraError::Template(m)) && m@ == "No template file found in build directory"@,
        },
{
    let ghost f = |e: (String, bool)| is_template_entry(e.0@, e.1);
    let mut i: usize = 0;
    while i < entries.len()
        invariant
            i <= entries@.len(),
            f == (|e: (String, bool)| is_template_entry(e.0@, e.1)),
            forall|k: int| 0 <= k < i ==> !f(#[trigger] entries@[k]),
        decreases entries.len() - i,
    {
        let e = &entries[i];
        if is_template_entry_exec(e.0.as_str(), e.1) {
            proof {
                assert(f(entries@[i as int]));
                lemma_first_index_at(entries@, f, i as int);
            }
            return Ok(crate::text::copy_string(&entries[i].0));
        }
        i = i + 1;
    }
    proof {
        lemma_first_index_none(entries@, f);
    }
    Err(InfraError::Template(String::from_str("No template file found in build directory")))
}

/// The directory a build runs in: the one given, else
/// `<cache>/builds/<name>-<timestamp>`.
pub fn build_dir_for(working_dir: Option<String>, cache_dir: &str, name: &str, timestamp: &str) -> (r: String)
    ensures
        r@ == match working_dir {
            Some(d) => d@,
            None => path_join(path_join(cache_dir@, "builds"@), name@ + "-"@ + timestamp@),
        },
{
    match working_dir {
        Some(d) => d,
        None => {
            let b = path_join_exec(cache_dir, "builds");
            let mut n = String::from_str(name);
            append_str(&mut n, "-");
            append_str(&mut n, timestamp);
            path_join_exec(b.as_str(), n.as_str())
        },
    }
}

/// The error for a template path that does not exist.
pub fn missing_template_path(path: &str) -> (r: InfraError)
    ensures
        r matches InfraError::Template(m) && m@ == "Template path not found: "@ + debug_path(path@),
{
    let mut m = String::from_str("Template path not found: ");
    let d = debug_path_exec(path);
    append_str(&mut m, d.as_str());
    InfraError::Template(m)
}

/// The error for a template path without a file name.
pub fn invalid_template_path() -> (r: InfraError)
    ensures
        r matches InfraError::Template(m) && m@ == "Invalid template path"@,
{
    InfraError::Template(String::from_str("Invalid template path"))
}

/// The outcome of `packer build`: its error output when it failed.
pub fn packer_outcome(success: bool, stderr: String) -> (r: Result<(), InfraError>)
    ensures
        success ==> r is Ok,
        !success ==> (r matches Err(InfraError::Packer(m)) && m@ == stderr@),
{
    if success {
        Ok(())
    } else {
        Err(InfraError::Packer(stderr))
    }
}

/// The texts that `i64::from_str` can accept: an optional sign, then one or more
/// digits (a value out of range is refused besides).
pub open spec fn integer_text(s: Seq<char>) -> bool {
    unsigned(s).len() > 0 && all_digits(unsigned(s))
}

/// Law: every integer text is a float text, so a variable's value that is an integer
/// is written as a number.
pub proof fn law_integer_texts_are_float_texts(s: Seq<char>)
    requires
        integer_text(s),
    ensures
        float_text(s),
{
    let b = unsigned(s);
    let p = |c: char| is_exp_mark(c);
    assert forall|j: int| 0 <= j < b.len() implies !p(b[j]) by {
        assert(is_digit(b[j]));
    }
    lemma_first_index_none(b, p);
    reveal(find_seq);
    assert(!contains_seq(b, "."@)) by {
        reveal_strlit(".");
        if contains_seq(b, "."@) {
            let i = choose|i: int| occurs_at(b, "."@, i);
            assert(b.subrange(i, i + 1)[0] == b[i]);
            assert(is_digit(b[i]));
        }
    }
    assert(mantissa_ok(b));
}

/// Law: escaping two texts one after the other gives their escapes one after the other:
/// each double quote becomes a backslash and a double quote, and every other
/// character stays.
pub proof fn law_escape_quotes_concat(a: Seq<char>, b: Seq<char>)
    ensures
        escape_quotes(a + b) == escape_quotes(a) + escape_quotes(b),
    decreases b.len(),
{
    if b.len() == 0 {
        assert(a + b =~= a);
        assert(escape_quotes(b) == Seq::<char>::empty());
        assert(escape_quotes(a) + Seq::<char>::empty() =~= escape_quotes(a));
    } else {
        law_escape_quotes_concat(a, b.drop_last());
        assert((a + b).drop_last() =~= a + b.drop_last());
        assert((a + b).last() == b.last());
        assert(escape_quotes(a + b) =~= escape_quotes(a) + escape_quotes(b));
    }
}

/// Law: one element gives exactly its own part.
pub proof fn law_escape_quotes_single(x: char)
    ensures
        escape_quotes(seq![x]) == if x == '"' { seq!['\\', '"'] } else { seq![x] },
{
    assert(seq![x].drop_last() =~= Seq::<char>::empty());
    assert(escape_quotes(seq![x].drop_last()) == Seq::<char>::empty());
    assert(seq![x].last() == x);
    assert(escape_quotes(seq![x]) =~= if x == '"' { seq!['\\', '"'] } else { seq![x] });
}

/// Law: the variables file of two lists one after the other is the text of the first
/// followed by that of the second: each variable gets its own `name = value` line.
pub proof fn law_pkrvars_text_concat(a: Seq<(Seq<char>, Seq<char>)>, b: Seq<(Seq<char>, Seq<char>)>)
    ensures
        pkrvars_text(a + b) == pkrvars_text(a) + pkrvars_text(b),
    decreases b.len(),
{
    if b.len() == 0 {
        assert(a + b =~= a);
        assert(pkrvars_text(b) == Seq::<char>::empty());
        assert(pkrvars_text(a) + Seq::<char>::empty() =~= pkrvars_text(a));
    } else {
        law_pkrvars_text_concat(a, b.drop_last());
        assert((a + b).drop_last() =~= a + b.drop_last());
        assert((a + b).last() == b.last());
        assert(pkrvars_text(a + b) =~= pkrvars_text(a) + pkrvars_text(b));
    }
}

/// Law: one element gives exactly its own part.
pub proof fn law_pkrvars_text_single(x: (Seq<char>, Seq<char>))
    ensures
        pkrvars_text(seq![x]) == x.0 + " = "@ + pkrvar_value(x.1) + "\n"@,
{
    assert(seq![x].drop_last() =~= Seq::<(Seq<char>, Seq<char>)>::empty());
    assert(pkrvars_text(seq![x].drop_last()) == Seq::<char>::empty());
    assert(seq![x].last() == x);
    assert(pkrvars_text(seq![x]) =~= x.0 + " = "@ + pkrvar_value(x.1) + "\n"@);
}

} // verus!
