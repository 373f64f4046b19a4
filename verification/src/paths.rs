//! Names inside `/`-separated paths.
//!
//! A path is read as a sequence of components separated by `/`. Empty
//! components and `.` components carry no name; a path whose last component
//! is `..` has no file name.

use vstd::prelude::*;
use vstd::string::StrSliceExecFns;
use crate::text::chars_of;

verus! {

/// Start of the component of `p` that ends at `end`: the index after the last
/// `/` before `end`, or 0 when there is none.
pub open spec fn component_start(p: Seq<char>, end: int) -> int
    decreases end,
{
    if end <= 0 {
        0
    } else if p[end - 1] == '/' {
        end
    } else {
        component_start(p, end - 1)
    }
}

/// The last named component among the first `end` characters of `p`.
pub open spec fn last_component(p: Seq<char>, end: int) -> Option<Seq<char>>
    decreases end,
{
    if end <= 0 {
        None
    } else if p[end - 1] == '/' {
        last_component(p, end - 1)
    } else {
        let comp = p.subrange(component_start(p, end), end);
        if comp == seq!['.'] {
            last_component(p, end - 1)
        } else if comp == seq!['.', '.'] {
            None
        } else {
            Some(comp)
        }
    }
}

/// The final component of a path: the file or directory name.
pub open spec fn file_name_of(p: Seq<char>) -> Option<Seq<char>> {
    last_component(p, p.len() as int)
}

/// Index of the last `.` among the first `end` characters of `name`, or -1.
pub open spec fn last_dot(name: Seq<char>, end: int) -> int
    decreases end,
{
    if end <= 0 {
        -1
    } else if name[end - 1] == '.' {
        end - 1
    } else {
        last_dot(name, end - 1)
    }
}

/// A file name without its extension. A name without a `.`, or whose only
/// `.` is its first character, is its own stem.
pub open spec fn stem_of(name: Seq<char>) -> Seq<char> {
    let d = last_dot(name, name.len() as int);
    if d <= 0 {
        name
    } else {
        name.subrange(0, d)
    }
}

/// The extension of a file name: what follows its last `.`, unless that `.`
/// is the first character.
pub open spec fn extension_of(name: Seq<char>) -> Option<Seq<char>> {
    let d = last_dot(name, name.len() as int);
    if d <= 0 {
        None
    } else {
        Some(name.subrange(d + 1, name.len() as int))
    }
}

/// The stem of the final component of a path.
pub open spec fn file_stem_of(p: Seq<char>) -> Option<Seq<char>> {
    match file_name_of(p) {
        Some(name) => Some(stem_of(name)),
        None => None,
    }
}

proof fn lemma_component_start_bounds(p: Seq<char>, end: int)
    requires
        0 <= end <= p.len(),
    ensures
        0 <= component_start(p, end) <= end,
        end > 0 && p[end - 1] != '/' ==> component_start(p, end) < end,
    decreases end,
{
    if end > 0 && p[end - 1] != '/' {
        lemma_component_start_bounds(p, end - 1);
    }
}

/// A name, when there is one, is never empty and holds no separator.
pub proof fn lemma_last_component_is_name(p: Seq<char>, end: int)
    requires
        0 <= end <= p.len(),
    ensures
        last_component(p, end) matches Some(name) ==> name.len() > 0 && !name.contains('/'),
    decreases end,
{
    if end > 0 {
        if p[end - 1] == '/' {
            lemma_last_component_is_name(p, end - 1);
        } else {
            let start = component_start(p, end);
            lemma_component_start_bounds(p, end);
            lemma_component_has_no_separator(p, end);
            lemma_last_component_is_name(p, end - 1);
        }
    }
}

proof fn lemma_component_has_no_separator(p: Seq<char>, end: int)
    requires
        0 <= end <= p.len(),
    ensures
        forall|k: int| component_start(p, end) <= k < end ==> p[k] != '/',
    decreases end,
{
    if end > 0 && p[end - 1] != '/' {
        lemma_component_has_no_separator(p, end - 1);
    }
}

/// Bounds of the final component of `p`, when it has one.
fn file_name_bounds(p: &Vec<char>) -> (r: Option<(usize, usize)>)
    ensures
        match r {
            Some((start, end)) => start < end <= p.len() && file_name_of(p@) == Some(
                p@.subrange(start as int, end as int),
            ),
            None => file_name_of(p@) is None,
        },
{
    let mut end: usize = p.len();
    while end > 0
        invariant
            end <= p.len(),
            last_component(p@, end as int) == file_name_of(p@),
        decreases end,
    {
        if p[end - 1] == '/' {
            end -= 1;
        } else {
            let mut start: usize = end - 1;
            while start > 0 && p[start - 1] != '/'
                invariant
                    start < end <= p.len(),
                    p@[end - 1] != '/',
                    component_start(p@, start as int + 1) == component_start(p@, end as int),
                    p@[start as int] != '/',
                decreases start,
            {
                start -= 1;
            }
            assert(component_start(p@, end as int) == start) by {
                reveal_with_fuel(component_start, 2);
            }
            let len: usize = end - start;
            let ghost comp = p@.subrange(start as int, end as int);
            if len == 1 && p[start] == '.' {
                assert(comp =~= seq!['.']);
                end -= 1;
            } else if len == 2 && p[start] == '.' && p[start + 1] == '.' {
                assert(comp =~= seq!['.', '.']);
                return None;
            } else {
                assert(comp != seq!['.']) by {
                    if comp == seq!['.'] {
                        assert(comp.len() == 1);
                        assert(comp[0] == '.');
                    }
                }
                assert(comp != seq!['.', '.']) by {
                    if comp == seq!['.', '.'] {
                        assert(comp.len() == 2);
                        assert(comp[0] == '.');
                        assert(comp[1] == '.');
                    }
                }
                return Some((start, end));
            }
        }
    }
    None
}

/// The file or directory name that a path ends in.
pub fn file_name(path: &str) -> (r: Option<String>)
    ensures
        match r {
            Some(name) => file_name_of(path@) == Some(name@),
            None => file_name_of(path@) is None,
        },
{
    let chars = chars_of(path);
    match file_name_bounds(&chars) {
        Some((start, end)) => Some(path.substring_char(start, end).to_owned()),
        None => None,
    }
}

/// Index of the last `.` in `name`, when there is one.
fn last_dot_index(name: &Vec<char>) -> (r: Option<usize>)
    ensures
        match r {
            Some(d) => d < name.len() && last_dot(name@, name.len() as int) == d,
            None => last_dot(name@, name.len() as int) == -1,
        },
{
    let mut end: usize = name.len();
    while end > 0
        invariant
            end <= name.len(),
            last_dot(name@, end as int) == last_dot(name@, name.len() as int),
        decreases end,
    {
        if name[end - 1] == '.' {
            return Some(end - 1);
        }
        end -= 1;
    }
    None
}

/// The stem of a file name.
pub fn stem(name: &str) -> (r: String)
    ensures
        r@ == stem_of(name@),
{
    let chars = chars_of(name);
    match last_dot_index(&chars) {
        Some(d) => {
            if d == 0 {
                name.to_owned()
            } else {
                name.substring_char(0, d).to_owned()
            }
        },
        None => name.to_owned(),
    }
}

/// The stem of the final component of a path.
pub fn file_stem(path: &str) -> (r: Option<String>)
    ensures
        match r {
            Some(s) => file_stem_of(path@) == Some(s@),
            None => file_stem_of(path@) is None,
        },
{
    match file_name(path) {
        Some(name) => Some(stem(name.as_str())),
        None => None,
    }
}

/// Whether a file name carries the extension `ext`.
pub fn has_extension(name: &str, ext: &str) -> (r: bool)
    ensures
        r == (extension_of(name@) == Some(ext@)),
{
    let chars = chars_of(name);
    let wanted = chars_of(ext);
    match last_dot_index(&chars) {
        Some(d) => {
            if d == 0 {
                false
            } else {
                let from: usize = d + 1;
                let n: usize = chars.len() - from;
                if n != wanted.len() {
                    assert(name@.subrange(d + 1, name@.len() as int).len() != ext@.len());
                    return false;
                }
                let mut k: usize = 0;
                while k < n
                    invariant
                        k <= n,
                        from + n == chars.len(),
                        n == wanted.len(),
                        chars@ == name@,
                        wanted@ == ext@,
                        0 < d,
                        from == d + 1,
                        last_dot(name@, name@.len() as int) == d,
                        forall|j: int| 0 <= j < k ==> chars@[from + j] == wanted@[j],
                    decreases n - k,
                {
                    if chars[from + k] != wanted[k] {
                        assert(name@.subrange(from as int, name@.len() as int)[k as int]
                            != ext@[k as int]);
                        return false;
                    }
                    k += 1;
                }
                assert(name@.subrange(from as int, name@.len() as int) =~= ext@);
                true
            }
        },
        None => false,
    }
}

} // verus!
