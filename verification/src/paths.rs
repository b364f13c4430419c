//! The syntax of paths, as far as the store reads it: components between
//! slashes, and the extension of a file name.

use vstd::prelude::*;
use crate::text::chars_of;

verus! {

/// Where the components of a path start: after the slash of the root, or
/// after the dot that stands for the current directory.
pub open spec fn body_start(path: Seq<char>) -> int {
    if path.len() > 0 && path[0] == '/' {
        1
    } else if path.len() > 0 && path[0] == '.' && (path.len() == 1 || path[1] == '/') {
        1
    } else {
        0
    }
}

/// Where the component that ends at `end` starts: after the last slash
/// before `end`, or at `start`.
pub open spec fn component_start(path: Seq<char>, start: int, end: int) -> int
    decreases end - start,
{
    if end <= start {
        start
    } else if path[end - 1] == '/' {
        end
    } else {
        component_start(path, start, end - 1)
    }
}

/// The bounds of the last component between `start` and `end` that names
/// something: slashes and components `.` at the end are passed over, and a
/// path that ends with the component `..` has none.
pub open spec fn last_component(path: Seq<char>, start: int, end: int) -> Option<(int, int)>
    decreases end - start,
{
    if end <= start {
        None
    } else if path[end - 1] == '/' {
        last_component(path, start, end - 1)
    } else {
        let cut = component_start(path, start, end);
        if end - cut == 1 && path[cut] == '.' {
            last_component(path, start, cut)
        } else if end - cut == 2 && path[cut] == '.' && path[cut + 1] == '.' {
            None
        } else {
            Some((cut, end))
        }
    }
}

/// The file name of a path: its last component, if that names something.
pub open spec fn file_name(path: Seq<char>) -> Option<Seq<char>> {
    match last_component(path, body_start(path), path.len() as int) {
        Some((from, to)) => Some(path.subrange(from, to)),
        None => None,
    }
}

/// The index of the last dot of a name, or -1.
pub open spec fn last_dot(name: Seq<char>) -> int
    decreases name.len(),
{
    if name.len() == 0 {
        -1
    } else if name.last() == '.' {
        name.len() - 1
    } else {
        last_dot(name.drop_last())
    }
}

/// The extension of a file name: what follows its last dot, unless the
/// name has no dot or only the one that it starts with.
pub open spec fn name_extension(name: Seq<char>) -> Seq<char> {
    if last_dot(name) > 0 {
        name.skip(last_dot(name) + 1)
    } else {
        Seq::empty()
    }
}

/// The extension of a path: that of its file name; empty where there is
/// none.
pub open spec fn extension(path: Seq<char>) -> Seq<char> {
    match file_name(path) {
        Some(name) => name_extension(name),
        None => Seq::empty(),
    }
}

/// The bounds of the file name of a path.
fn file_name_bounds(path: &Vec<char>) -> (r: Option<(usize, usize)>)
    ensures
        match last_component(path@, body_start(path@), path@.len() as int) {
            Some((from, to)) => r == Some((from as usize, to as usize)) && 0 <= from <= to
                <= path@.len(),
            None => r is None,
        },
{
    let start: usize = if path.len() > 0 && path[0] == '/' {
        1
    } else if path.len() > 0 && path[0] == '.' && (path.len() == 1 || path[1] == '/') {
        1
    } else {
        0
    };
    let ghost whole = last_component(path@, start as int, path@.len() as int);
    let mut end: usize = path.len();
    while end > start
        invariant
            start <= end <= path.len(),
            start == body_start(path@),
            whole == last_component(path@, start as int, path@.len() as int),
            last_component(path@, start as int, end as int) == whole,
        decreases end - start,
    {
        if path[end - 1] == '/' {
            end -= 1;
        } else {
            let mut cut: usize = end;
            while cut > start && path[cut - 1] != '/'
                invariant
                    start <= cut <= end <= path.len(),
                    component_start(path@, start as int, cut as int) == component_start(
                        path@,
                        start as int,
                        end as int,
                    ),
                decreases cut - start,
            {
                cut -= 1;
            }
            assert(cut == component_start(path@, start as int, end as int));
            if end - cut == 1 && path[cut] == '.' {
                end = cut;
            } else if end - cut == 2 && path[cut] == '.' && path[cut + 1] == '.' {
                return None;
            } else {
                return Some((cut, end));
            }
        }
    }
    None
}

/// The extension of a file name.
pub fn name_extension_of(name: &Vec<char>) -> (r: Vec<char>)
    ensures
        r@ == name_extension(name@),
{
    let mut dot: usize = name.len();
    assert(name@.take(name.len() as int) =~= name@);
    while dot > 0 && name[dot - 1] != '.'
        invariant
            dot <= name.len(),
            last_dot(name@.take(dot as int)) == last_dot(name@),
        decreases dot,
    {
        assert(name@.take(dot as int).drop_last() =~= name@.take(dot - 1));
        dot -= 1;
    }
    let mut out: Vec<char> = Vec::new();
    if dot > 1 {
        assert(name@.take(dot as int).last() == '.');
        let mut i: usize = dot;
        while i < name.len()
            invariant
                dot <= i <= name.len(),
                out@ == name@.subrange(dot as int, i as int),
            decreases name.len() - i,
        {
            out.push(name[i]);
            assert(out@ =~= name@.subrange(dot as int, i + 1));
            i += 1;
        }
        assert(out@ =~= name@.skip(dot as int));
    }
    out
}

/// The file name of a path, if it has one.
pub fn file_name_of(path: &str) -> (r: Option<Vec<char>>)
    ensures
        match file_name(path@) {
            Some(name) => r is Some && r->0@ == name,
            None => r is None,
        },
{
    let chars = chars_of(path);
    match file_name_bounds(&chars) {
        Some((from, to)) => {
            let mut out: Vec<char> = Vec::new();
            let mut i: usize = from;
            while i < to
                invariant
                    from <= i <= to <= chars.len(),
                    out@ == chars@.subrange(from as int, i as int),
                decreases to - i,
            {
                out.push(chars[i]);
                assert(out@ =~= chars@.subrange(from as int, i + 1));
                i += 1;
            }
            Some(out)
        },
        None => None,
    }
}

/// The extension of a path; empty where it has none.
pub fn extension_of(path: &str) -> (r: Vec<char>)
    ensures
        r@ == extension(path@),
{
    match file_name_of(path) {
        Some(name) => name_extension_of(&name),
        None => Vec::new(),
    }
}

} // verus!
