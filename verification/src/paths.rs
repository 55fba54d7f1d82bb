//! Paths as text.

use vstd::prelude::*;

use crate::text;

verus! {

/// Whether a path starts at the root.
pub open spec fn absolute(path: Seq<char>) -> bool {
    path.len() > 0 && path[0] == '/'
}

/// `part` seen from `base`: an absolute part replaces the base, any other is
/// put behind it with one separator.
pub open spec fn joined(base: Seq<char>, part: Seq<char>) -> Seq<char> {
    if absolute(part) {
        part
    } else if base.len() == 0 || base.last() == '/' {
        base + part
    } else {
        base + "/"@ + part
    }
}

pub fn is_absolute(path: &str) -> (yes: bool)
    ensures
        yes == absolute(path@),
{
    let chars = text::chars_of(path);
    chars.len() > 0 && chars[0] == '/'
}

pub fn join(base: &str, part: &str) -> (path: String)
    ensures
        path@ == joined(base@, part@),
{
    if is_absolute(part) {
        return part.to_owned();
    }
    let chars = text::chars_of(base);
    let mut path = base.to_owned();
    if chars.len() > 0 && chars[chars.len() - 1] != '/' {
        path.append("/");
    }
    path.append(part);
    path
}

/// A path behind a directory starts with the directory and ends with the path,
/// with exactly one separator between them; an absolute path stays as it is.
pub proof fn joined_paths_hold_both_parts(base: &str, part: &str, path: String)
    requires
        call_ensures(join, (base, part), path),
    ensures
        part@.len() > 0 && part@[0] == '/' ==> path@ == part@,
        part@.len() == 0 || part@[0] != '/' ==> {
            let start = path@.len() - part@.len();
            &&& base@.len() <= start
            &&& path@.take(base@.len() as int) == base@
            &&& path@.skip(start) == part@
            &&& base@.len() > 0 ==> start > 0 && path@[start - 1] == '/'
            &&& start == if base@.len() == 0 || base@[base@.len() - 1] == '/' {
                base@.len()
            } else {
                base@.len() + 1
            }
        },
{
    reveal_strlit("/");
    if part@.len() == 0 || part@[0] != '/' {
        let start = path@.len() - part@.len();
        assert(path@.take(base@.len() as int) =~= base@);
        assert(path@.skip(start) =~= part@);
    }
}

/// Only a path that starts with a slash is absolute.
pub proof fn absolute_paths_start_with_a_slash(path: &str, yes: bool)
    requires
        call_ensures(is_absolute, (path,), yes),
    ensures
        yes <==> exists|rest: Seq<char>| path@ == #[trigger] (seq!['/'] + rest),
{
    if yes {
        assert(path@ =~= seq!['/'] + path@.skip(1));
    }
}

} // verus!
