//! Paths as texts with `/` between their segments.

use vstd::prelude::*;

verus! {

/// The path begins at the root of the file system.
pub open spec fn is_absolute(path: Seq<char>) -> bool {
    path.len() > 0 && path[0] == '/'
}

/// `path` adjoined to `base`. An absolute `path` replaces `base`. Otherwise
/// it follows `base`, after a `/` where `base` is not empty and does not end
/// in one. The segments `.` and `..` are kept as they are.
pub open spec fn join(base: Seq<char>, path: Seq<char>) -> Seq<char> {
    if is_absolute(path) {
        path
    } else if base.len() == 0 || base.last() == '/' {
        base + path
    } else {
        base + seq!['/'] + path
    }
}

/// The characters of a text, one by one.
pub fn chars_of(text: &str) -> (chars: Vec<char>)
    ensures
        chars@ == text@,
{
    let mut chars: Vec<char> = Vec::new();
    for c in it: text.chars()
        invariant
            it.seq() == text@,
            chars@ == text@.take(it.index() as int),
    {
        assert(text@.take(it.index() + 1) == text@.take(it.index() as int).push(c));
        chars.push(c);
    }
    assert(text@.take(text@.len() as int) == text@);
    chars
}

/// Adjoins `path` to `base`.
pub fn join_paths(base: &str, path: &str) -> (joined: String)
    ensures
        joined@ == join(base@, path@),
{
    let path_len = path.unicode_len();
    if path_len > 0 && path.get_char(0) == '/' {
        return String::from_str(path);
    }
    let base_len = base.unicode_len();
    let mut joined = String::from_str(base);
    if base_len > 0 && base.get_char(base_len - 1) != '/' {
        joined.push('/');
    }
    joined.append(path);
    joined
}

/// Adjoining two paths one after the other is adjoining what the two make
/// together: a path below a path below a base is found from the base by the
/// two paths joined.
pub proof fn lemma_join_is_associative(base: Seq<char>, path: Seq<char>, name: Seq<char>)
    ensures
        join(base, join(path, name)) == join(join(base, path), name),
{
    if is_absolute(name) {
    } else if is_absolute(path) {
        assert(join(path, name)[0] == path[0]);
    } else if path.len() == 0 {
    } else {
        let inner = join(path, name);
        let outer = join(base, path);
        assert(inner[0] == path[0]);
        assert(outer.last() == path.last());
        if base.len() == 0 || base.last() == '/' {
            if path.last() == '/' {
                assert(base + (path + name) == (base + path) + name);
            } else {
                assert(base + (path + seq!['/'] + name) == (base + path) + seq!['/'] + name);
            }
        } else {
            if path.last() == '/' {
                assert(base + seq!['/'] + (path + name) == (base + seq!['/'] + path) + name);
            } else {
                assert(base + seq!['/'] + (path + seq!['/'] + name) == (base + seq!['/'] + path)
                    + seq!['/'] + name);
            }
        }
    }
}

} // verus!
