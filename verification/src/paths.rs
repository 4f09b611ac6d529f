//! Unix path names as text: the final component of a path and its stem, as
//! `Path::file_name` and `Path::file_stem` give them.
use crate::text::{chars_eq_str, split_char, split_char_exec, string_of};
use vstd::prelude::*;

verus! {

/// The components of a path: the pieces between `/`, without empty and `.` pieces.
pub open spec fn components(parts: Seq<Seq<char>>) -> Seq<Seq<char>>
    decreases parts.len(),
{
    if parts.len() == 0 {
        Seq::empty()
    } else {
        let prev = components(parts.drop_last());
        let p = parts.last();
        if p.len() == 0 || p == "."@ {
            prev
        } else {
            prev.push(p)
        }
    }
}

/// `Path::file_name`: the last component, unless the path has none or ends in `..`.
pub open spec fn file_name(path: Seq<char>) -> Option<Seq<char>> {
    let c = components(split_char(path, '/'));
    if c.len() == 0 || c.last() == ".."@ {
        None
    } else {
        Some(c.last())
    }
}

/// The final component of a path, as `Path::file_name` gives it.
pub fn file_name_exec(path: &[char]) -> (r: Option<Vec<char>>)
    ensures
        match file_name(path@) {
            Some(n) => r matches Some(v) && v@ == n,
            None => r is None,
        },
{
    let parts = split_char_exec(path, '/');
    let ghost sp = split_char(path@, '/');
    let mut last: Option<usize> = None;
    let mut i: usize = 0;
    while i < parts.len()
        invariant
            parts@.len() == sp.len(),
            forall|k: int| 0 <= k < parts@.len() ==> #[trigger] parts@[k]@ == sp[k],
            i <= parts.len(),
            match last {
                Some(j) => j < i && components(sp.take(i as int)).len() > 0 && components(sp.take(i as int)).last() == sp[j as int],
                None => components(sp.take(i as int)).len() == 0,
            },
        decreases parts.len() - i,
    {
        proof {
            assert(sp.take(i + 1).drop_last() =~= sp.take(i as int));
        }
        let p = parts[i].as_slice();
        if !(p.len() == 0 || chars_eq_str(p, ".")) {
            last = Some(i);
        }
        i = i + 1;
    }
    assert(sp.take(sp.len() as int) =~= sp);
    match last {
        None => None,
        Some(j) => {
            if chars_eq_str(parts[j].as_slice(), "..") {
                None
            } else {
                let mut v: Vec<char> = Vec::new();
                let s = parts[j].as_slice();
                let mut k: usize = 0;
                while k < s.len()
                    invariant
                        k <= s.len(),
                        v@ == s@.take(k as int),
                    decreases s.len() - k,
                {
                    v.push(s[k]);
                    k = k + 1;
                    assert(v@ =~= s@.take(k as int));
                }
                assert(s@.take(s@.len() as int) =~= s@);
                Some(v)
            }
        },
    }
}

/// The position of the last `.` in `s`, if any.
pub open spec fn last_dot(s: Seq<char>) -> Option<int>
    decreases s.len(),
{
    if s.len() == 0 {
        None
    } else if s.last() == '.' {
        Some(s.len() - 1)
    } else {
        last_dot(s.drop_last())
    }
}

/// `Path::file_stem`: the file name without its extension; a name whose only dot
/// leads it (like `.bashrc`) is kept whole.
pub open spec fn file_stem(path: Seq<char>) -> Option<Seq<char>> {
    match file_name(path) {
        None => None,
        Some(n) => if n == ".."@ {
            Some(n)
        } else {
            match last_dot(n) {
                Some(i) => if i == 0 {
                    Some(n)
                } else {
                    Some(n.take(i))
                },
                None => Some(n),
            }
        },
    }
}

/// The stem of the final component of a path, as `Path::file_stem` gives it.
pub fn file_stem_exec(path: &[char]) -> (r: Option<Vec<char>>)
    ensures
        match file_stem(path@) {
            Some(n) => r matches Some(v) && v@ == n,
            None => r is None,
        },
{
    match file_name_exec(path) {
        None => None,
        Some(n) => {
            if chars_eq_str(n.as_slice(), "..") {
                return Some(n);
            }
            let mut i: usize = n.len();
            assert(n@.take(i as int) =~= n@);
            while i > 0 && n[i - 1] != '.'
                invariant
                    i <= n@.len(),
                    last_dot(n@) == last_dot(n@.take(i as int)),
                decreases i,
            {
                proof {
                    assert(n@.take(i as int).drop_last() =~= n@.take(i - 1));
                }
                i = i - 1;
            }
            if i == 0 {
                proof {
                    assert(n@.take(0) =~= Seq::<char>::empty());
                }
                Some(n)
            } else if i == 1 {
                proof {
                    assert(n@.take(1).last() == '.');
                }
                Some(n)
            } else {
                let mut v: Vec<char> = Vec::new();
                let mut k: usize = 0;
                while k < i - 1
                    invariant
                        i <= n@.len(),
                        k <= i - 1,
                        v@ == n@.take(k as int),
                    decreases i - 1 - k,
                {
                    v.push(n[k]);
                    k = k + 1;
                    assert(v@ =~= n@.take(k as int));
                }
                proof {
                    assert(n@.take(i as int).last() == '.');
                }
                Some(v)
            }
        },
    }
}

/// `Path::extension`: what follows the last `.` of the file name, unless that dot
/// leads the name.
pub open spec fn extension(path: Seq<char>) -> Option<Seq<char>> {
    match file_name(path) {
        None => None,
        Some(n) => match last_dot(n) {
            Some(i) => if i == 0 {
                None
            } else {
                Some(n.skip(i + 1))
            },
            None => None,
        },
    }
}

/// The extension of a path's file name.
pub fn extension_exec(path: &[char]) -> (r: Option<Vec<char>>)
    ensures
        match extension(path@) {
            Some(e) => r matches Some(v) && v@ == e,
            None => r is None,
        },
{
    match file_name_exec(path) {
        None => None,
        Some(n) => {
            let mut i: usize = n.len();
            assert(n@.take(i as int) =~= n@);
            while i > 0 && n[i - 1] != '.'
                invariant
                    i <= n@.len(),
                    last_dot(n@) == last_dot(n@.take(i as int)),
                decreases i,
            {
                proof {
                    assert(n@.take(i as int).drop_last() =~= n@.take(i - 1));
                }
                i = i - 1;
            }
            if i <= 1 {
                proof {
                    if i == 0 {
                        assert(n@.take(0) =~= Seq::<char>::empty());
                    } else {
                        assert(n@.take(1).last() == '.');
                    }
                }
                None
            } else {
                proof {
                    assert(n@.take(i as int).last() == '.');
                }
                let ext = crate::text::slice_chars(n.as_slice(), i, n.len());
                assert(ext@ =~= n@.skip(i as int));
                Some(ext)
            }
        },
    }
}

/// The final component of a path as a string.
pub fn file_name_string(path: &str) -> (r: Option<String>)
    ensures
        match file_name(path@) {
            Some(n) => r matches Some(v) && v@ == n,
            None => r is None,
        },
{
    let c = crate::text::chars_of(path);
    match file_name_exec(c.as_slice()) {
        Some(v) => Some(string_of(v.as_slice())),
        None => None,
    }
}

/// The stem of the final component of a path as a string.
pub fn file_stem_string(path: &str) -> (r: Option<String>)
    ensures
        match file_stem(path@) {
            Some(n) => r matches Some(v) && v@ == n,
            None => r is None,
        },
{
    let c = crate::text::chars_of(path);
    match file_stem_exec(c.as_slice()) {
        Some(v) => Some(string_of(v.as_slice())),
        None => None,
    }
}

/// `Path::join` on Unix: an absolute `part` replaces `base`; otherwise `part` follows
/// `base`, with a `/` between them unless `base` is empty or already ends in one.
pub open spec fn path_join(base: Seq<char>, part: Seq<char>) -> Seq<char> {
    if part.len() > 0 && part[0] == '/' {
        part
    } else if base.len() == 0 || base.last() == '/' {
        base + part
    } else {
        base.push('/') + part
    }
}

/// Joins `part` onto `base` as `Path::join` does on Unix.
pub fn path_join_exec(base: &str, part: &str) -> (r: String)
    ensures
        r@ == path_join(base@, part@),
{
    let b = crate::text::chars_of(base);
    let p = crate::text::chars_of(part);
    if p.len() > 0 && p[0] == '/' {
        return string_of(p.as_slice());
    }
    let mut r = string_of(b.as_slice());
    if !(b.len() == 0 || b[b.len() - 1] == '/') {
        crate::text::push_char(&mut r, '/');
    }
    crate::text::append_chars(&mut r, p.as_slice());
    r
}

} // verus!
