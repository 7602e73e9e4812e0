//! Paths as text: the name of the file a path ends in, and the path of a
//! name below a directory. Components are parted by `/`.

use vstd::prelude::*;
use crate::text::to_chars;

verus! {

/// `path` without what does not count at its end: separators, and components
/// that are a lone `.`.
pub open spec fn trimmed(path: Seq<char>) -> Seq<char>
    decreases path.len(),
{
    if path.len() > 0 && path.last() == '/' {
        trimmed(path.drop_last())
    } else if path.len() >= 2 && path.last() == '.' && path[path.len() - 2] == '/' {
        trimmed(path.drop_last())
    } else {
        path
    }
}

/// Where the last component of `path` begins: behind its last separator, or
/// at 0 where it has none.
pub open spec fn last_component_start(path: Seq<char>) -> int
    decreases path.len(),
{
    if path.len() == 0 || path.last() == '/' {
        path.len() as int
    } else {
        last_component_start(path.drop_last())
    }
}

/// The name of the file that `path` ends in. There is none where the path is
/// empty or ends in the root, in `.` standing alone, or in `..`.
pub open spec fn file_name_of(path: Seq<char>) -> Option<Seq<char>> {
    let kept = trimmed(path);
    let name = kept.skip(last_component_start(kept));
    if name.len() == 0 || name == seq!['.'] || name == seq!['.', '.'] {
        None
    } else {
        Some(name)
    }
}

/// The path of `name` below `root`: a separator comes between the two unless
/// `root` is empty or ends in one.
pub open spec fn joined(root: Seq<char>, name: Seq<char>) -> Seq<char> {
    if root.len() == 0 || root.last() == '/' {
        root + name
    } else {
        root + seq!['/'] + name
    }
}

/// Where `trimmed` cuts the first `end` characters of `chars`.
fn trimmed_len(chars: &Vec<char>) -> (end: usize)
    ensures
        end <= chars@.len(),
        trimmed(chars@) == chars@.take(end as int),
{
    let mut end: usize = chars.len();
    assert(chars@.take(end as int) =~= chars@);
    while end > 0 && (chars[end - 1] == '/' || (end >= 2 && chars[end - 1] == '.' && chars[end
        - 2] == '/'))
        invariant
            end <= chars@.len(),
            trimmed(chars@) == trimmed(chars@.take(end as int)),
        decreases end,
    {
        assert(chars@.take(end as int).drop_last() =~= chars@.take(end - 1));
        end = end - 1;
    }
    end
}

/// Where the last component of the first `end` characters of `chars` begins.
fn component_start(chars: &Vec<char>, end: usize) -> (start: usize)
    requires
        end <= chars@.len(),
    ensures
        start <= end,
        start == last_component_start(chars@.take(end as int)),
{
    let mut start: usize = end;
    let ghost kept = chars@.take(end as int);
    assert(kept.take(end as int) =~= kept);
    while start > 0 && chars[start - 1] != '/'
        invariant
            start <= end <= chars@.len(),
            kept == chars@.take(end as int),
            last_component_start(kept) == last_component_start(kept.take(start as int)),
        decreases start,
    {
        assert(kept.take(start as int).drop_last() =~= kept.take(start - 1));
        start = start - 1;
    }
    start
}

/// The name of the file that `path` ends in.
pub fn file_name(path: &str) -> (name: Option<String>)
    ensures
        match name {
            Some(n) => file_name_of(path@) == Some(n@),
            None => file_name_of(path@) is None,
        },
{
    let chars = to_chars(path);
    let end = trimmed_len(&chars);
    let start = component_start(&chars, end);
    let ghost kept = chars@.take(end as int);
    let ghost found = kept.skip(start as int);
    assert(found =~= path@.subrange(start as int, end as int));
    let len = end - start;
    if len == 0 {
        return None;
    }
    if len == 1 && chars[start] == '.' {
        assert(found =~= seq!['.']);
        return None;
    }
    if len == 2 && chars[start] == '.' && chars[start + 1] == '.' {
        assert(found =~= seq!['.', '.']);
        return None;
    }
    assert(found != seq!['.']) by {
        if found == seq!['.'] {
            assert(found[0] == '.');
        }
    }
    assert(found != seq!['.', '.']) by {
        if found == seq!['.', '.'] {
            assert(found[0] == '.');
            assert(found[1] == '.');
        }
    }
    let name = path.substring_char(start, end);
    Some(name.to_owned())
}

/// The path of `name` below `root`.
pub fn join(root: &str, name: &str) -> (path: String)
    ensures
        path@ == joined(root@, name@),
{
    let n = root.unicode_len();
    let mut path = root.to_owned();
    if n > 0 && root.get_char(n - 1) != '/' {
        proof {
            reveal_strlit("/");
        }
        path.append("/");
        assert(path@ =~= root@ + seq!['/']);
    }
    path.append(name);
    path
}

} // verus!
