//! Paths and file names as text.
use vstd::prelude::*;
use vstd::string::{StrSliceExecFns, StringExecFns};

use crate::text::{str_eq, Text};

verus! {

/// A path behind a directory. One that begins with a slash stands on its own.
pub open spec fn joined_path(base: Text, part: Text) -> Text {
    if (part.len() > 0 && part[0] == '/') || base.len() == 0 {
        part
    } else if base.last() == '/' {
        base + part
    } else {
        base + "/"@ + part
    }
}

/// A path behind a directory. One that begins with a slash stands on its own.
pub fn join_path(base: &str, part: &str) -> (s: String)
    ensures
        s@ == joined_path(base@, part@),
{
    let n: usize = base.unicode_len();
    if n == 0 || (part.unicode_len() > 0 && part.get_char(0) == '/') {
        return part.to_owned();
    }
    let mut s = base.to_owned();
    if base.get_char(n - 1) != '/' {
        s.append("/");
    }
    s.append(part);
    s
}

/// Where a character last stands in a text.
pub open spec fn last_at(s: Text, c: char) -> Option<int>
    decreases s.len(),
{
    if s.len() == 0 {
        None
    } else if s.last() == c {
        Some(s.len() - 1)
    } else {
        last_at(s.drop_last(), c)
    }
}

/// What follows a character where it last stands; all of a text without it.
pub open spec fn after_last(s: Text, c: char) -> Text {
    match last_at(s, c) {
        Some(i) => s.skip(i + 1),
        None => s,
    }
}

fn find_last(s: &str, c: char) -> (r: Option<usize>)
    ensures
        match r {
            Some(i) => i < s@.len() && last_at(s@, c) == Some(i as int),
            None => last_at(s@, c).is_none(),
        },
{
    let n: usize = s.unicode_len();
    let mut i: usize = n;
    proof {
        assert(s@.take(n as int) =~= s@);
    }
    while i > 0
        invariant
            n == s@.len(),
            i <= n,
            last_at(s@, c) == last_at(s@.take(i as int), c),
        decreases i,
    {
        proof {
            assert(s@.take(i as int).drop_last() =~= s@.take(i - 1));
            assert(s@.take(i as int).last() == s@[i - 1]);
        }
        i -= 1;
        if s.get_char(i) == c {
            return Some(i);
        }
    }
    None
}

/// A path without the slashes and the `.` parts at its end, which name nothing.
pub open spec fn trimmed(path: Text) -> Text
    decreases path.len(),
{
    let n = path.len();
    if n > 0 && path.last() == '/' {
        trimmed(path.drop_last())
    } else if n > 1 && path.last() == '.' && path[n - 2] == '/' {
        trimmed(path.drop_last())
    } else {
        path
    }
}

/// The name that a path ends in; none where it ends in the root, in itself or
/// in a parent.
pub open spec fn file_name_of(path: Text) -> Option<Text> {
    let name = after_last(trimmed(path), '/');
    if name == ""@ || name == "."@ || name == ".."@ {
        None
    } else {
        Some(name)
    }
}

/// The name that a path ends in.
pub fn file_name(path: &str) -> (r: Option<&str>)
    ensures
        match r {
            Some(name) => file_name_of(path@) == Some(name@),
            None => file_name_of(path@).is_none(),
        },
{
    let n: usize = path.unicode_len();
    let mut end: usize = n;
    proof {
        assert(path@.take(n as int) =~= path@);
    }
    while end > 0 && (path.get_char(end - 1) == '/' || (end > 1 && path.get_char(end - 1) == '.'
        && path.get_char(end - 2) == '/'))
        invariant
            n == path@.len(),
            end <= n,
            trimmed(path@) == trimmed(path@.take(end as int)),
        decreases end,
    {
        proof {
            assert(path@.take(end as int).drop_last() =~= path@.take(end - 1));
        }
        end -= 1;
    }
    let whole = path.substring_char(0, end);
    proof {
        assert(whole@ =~= path@.take(end as int));
    }
    let name = match find_last(whole, '/') {
        Some(i) => {
            let name = whole.substring_char(i + 1, end);
            proof {
                assert(name@ =~= whole@.skip(i + 1));
            }
            name
        },
        None => whole,
    };
    if str_eq(name, "") || str_eq(name, ".") || str_eq(name, "..") {
        None
    } else {
        Some(name)
    }
}

/// A file name's extension: what follows its last dot, unless that dot is the
/// first character.
pub open spec fn name_extension(name: Text) -> Option<Text> {
    match last_at(name, '.') {
        Some(i) => if i > 0 {
            Some(name.skip(i + 1))
        } else {
            None
        },
        None => None,
    }
}

/// The extension of the name that a path ends in.
pub open spec fn extension_of(path: Text) -> Option<Text> {
    match file_name_of(path) {
        Some(name) => name_extension(name),
        None => None,
    }
}

/// A text begins with another.
pub open spec fn begins_with(s: Text, prefix: Text) -> bool {
    prefix.len() <= s.len() && s.take(prefix.len() as int) == prefix
}

/// Whether the name that a path ends in has an extension.
pub fn has_extension(path: &str, extension: &str) -> (b: bool)
    ensures
        b == (extension_of(path@) == Some(extension@)),
{
    match file_name(path) {
        Some(name) => match find_last(name, '.') {
            Some(i) => {
                if i == 0 {
                    return false;
                }
                let n: usize = name.unicode_len();
                let found = name.substring_char(i + 1, n);
                proof {
                    assert(found@ =~= name@.skip(i + 1));
                }
                str_eq(found, extension)
            },
            None => false,
        },
        None => false,
    }
}

/// Whether a text begins with another.
pub fn starts_with(s: &str, prefix: &str) -> (b: bool)
    ensures
        b == begins_with(s@, prefix@),
{
    let n: usize = s.unicode_len();
    let k: usize = prefix.unicode_len();
    if k > n {
        return false;
    }
    let head = s.substring_char(0, k);
    proof {
        assert(head@ =~= s@.take(k as int));
    }
    str_eq(head, prefix)
}

/// A path behind a directory ends in that path; an absolute one stands on its
/// own, and any other stands behind the directory and one slash.
pub proof fn law_a_joined_path_ends_in_its_part(base: Text, part: Text)
    ensures
        base.len() == 0 ==> joined_path(base, part) == part,
        part.len() > 0 && part[0] == '/' ==> joined_path(base, part) == part,
        base.len() > 0 && (part.len() == 0 || part[0] != '/') ==> ({
            let p = joined_path(base, part);
            &&& p.take(base.len() as int) == base
            &&& p.skip(p.len() - part.len()) == part
            &&& base.last() == '/' ==> p.len() == base.len() + part.len()
            &&& base.last() != '/' ==> p.len() == base.len() + 1 + part.len() && p[base.len() as int]
                == '/'
        }),
{
    reveal_strlit("/");
    let p = joined_path(base, part);
    if base.len() > 0 && (part.len() == 0 || part[0] != '/') {
        assert(p.take(base.len() as int) =~= base);
        assert(p.skip(p.len() - part.len()) =~= part);
    }
}

/// Where a character last stands: there it is, and it does not come again.
pub proof fn law_a_last_place_is_the_last(s: Text, c: char)
    ensures
        last_at(s, c).is_none() <==> !s.contains(c),
        last_at(s, c).is_some() ==> 0 <= last_at(s, c).unwrap() < s.len() && s[last_at(
            s,
            c,
        ).unwrap()] == c && forall|k: int|
            last_at(s, c).unwrap() < k < s.len() ==> #[trigger] s[k] != c,
    decreases s.len(),
{
    if s.len() > 0 {
        let d = s.drop_last();
        law_a_last_place_is_the_last(d, c);
        if s.last() == c {
            assert(s[s.len() - 1] == c);
        } else {
            if s.contains(c) {
                let i = choose|i: int| 0 <= i < s.len() && s[i] == c;
                assert(d[i] == c);
            }
            if d.contains(c) {
                let i = choose|i: int| 0 <= i < d.len() && d[i] == c;
                assert(s[i] == c);
            }
            if last_at(s, c).is_some() {
                let i = last_at(s, c).unwrap();
                assert(s[i] == d[i]);
                assert forall|k: int| i < k < s.len() implies #[trigger] s[k] != c by {
                    if k < d.len() {
                        assert(s[k] == d[k]);
                    }
                }
            }
        }
    }
}

proof fn trimmed_is_a_beginning(path: Text)
    ensures
        trimmed(path).len() <= path.len(),
        trimmed(path) == path.take(trimmed(path).len() as int),
        trimmed(path).len() > 0 ==> trimmed(path).last() != '/',
        path.len() > 0 && path.last() != '/' && path.last() != '.' ==> trimmed(path) == path,
    decreases path.len(),
{
    let n = path.len();
    if (n > 0 && path.last() == '/') || (n > 1 && path.last() == '.' && path[n - 2] == '/') {
        trimmed_is_a_beginning(path.drop_last());
        let t = trimmed(path);
        assert(path.drop_last().take(t.len() as int) =~= path.take(t.len() as int));
    } else {
        assert(path.take(n as int) =~= path);
    }
}

/// A file's name holds no slash, is not empty and names neither a directory
/// itself nor its parent; a path that ends in `/` and a plain name has that name.
pub proof fn law_a_file_name_is_what_follows_the_last_slash(path: Text, dir: Text, name: Text)
    ensures
        file_name_of(path).is_some() ==> !file_name_of(path).unwrap().contains('/')
            && file_name_of(path).unwrap().len() > 0,
        name.len() > 0 && !name.contains('/') && name.last() != '.' ==> file_name_of(
            dir + "/"@ + name,
        ) == Some(name) && file_name_of(name) == Some(name),
{
    reveal_strlit("");
    reveal_strlit(".");
    reveal_strlit("..");
    reveal_strlit("/");
    let t = trimmed(path);
    law_a_last_place_is_the_last(t, '/');
    let found = after_last(t, '/');
    if last_at(t, '/').is_some() {
        let i = last_at(t, '/').unwrap();
        assert forall|k: int| 0 <= k < found.len() implies #[trigger] found[k] != '/' by {
            assert(found[k] == t[i + 1 + k]);
        }
    }
    if file_name_of(path).is_some() {
        if found.contains('/') {
            let k = choose|k: int| 0 <= k < found.len() && found[k] == '/';
            if last_at(t, '/').is_none() {
                assert(t.contains('/'));
            }
        }
        assert(found.len() == 0 ==> found =~= ""@);
    }
    if name.len() > 0 && !name.contains('/') && name.last() != '.' {
        let whole = dir + "/"@ + name;
        assert(name.contains(name[name.len() - 1]));
        trimmed_is_a_beginning(whole);
        trimmed_is_a_beginning(name);
        assert(whole.last() == name.last());
        law_a_last_place_is_the_last(whole, '/');
        law_a_last_place_is_the_last(name, '/');
        assert(whole[dir.len() as int] == '/');
        assert(whole.contains('/'));
        let i = last_at(whole, '/').unwrap();
        if i > dir.len() {
            assert(whole[i] == name[i - dir.len() - 1]);
            assert(name.contains('/'));
        }
        assert(i == dir.len());
        assert(whole.skip(i + 1) =~= name);
        assert(name != ""@);
        assert(name != "."@) by {
            if name == "."@ {
                assert(name.last() == '.');
            }
        }
        assert(name != ".."@) by {
            if name == ".."@ {
                assert(name.last() == '.');
            }
        }
    }
}

/// An extension is what follows a name's last dot, which is not its first
/// character: a stem, a dot and an extension without a dot have that extension.
pub proof fn law_an_extension_follows_the_last_dot(stem: Text, extension: Text)
    requires
        stem.len() > 0,
        !extension.contains('.'),
    ensures
        name_extension(stem + "."@ + extension) == Some(extension),
        !stem.contains('.') ==> name_extension(stem).is_none(),
        name_extension("."@ + extension).is_none(),
{
    reveal_strlit(".");
    let name = stem + "."@ + extension;
    law_a_last_place_is_the_last(name, '.');
    assert(name[stem.len() as int] == '.');
    assert(name.contains('.'));
    let i = last_at(name, '.').unwrap();
    if i > stem.len() {
        assert(name[i] == extension[i - stem.len() - 1]);
        assert(extension.contains('.'));
    }
    assert(name.skip(i + 1) =~= extension);
    law_a_last_place_is_the_last(stem, '.');
    let hidden = "."@ + extension;
    law_a_last_place_is_the_last(hidden, '.');
    assert(hidden[0] == '.');
    assert(hidden.contains('.'));
    let j = last_at(hidden, '.').unwrap();
    if j > 0 {
        assert(hidden[j] == extension[j - 1]);
        assert(extension.contains('.'));
    }
}

} // verus!
