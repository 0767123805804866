//! What applications are called, made from their ids: an id is the words of a
//! name in lower case, with underscores between them.
use vstd::prelude::*;
use vstd::string::{StrSliceExecFns, StringExecFns};

use crate::text::{to_upper, upper, Text};

verus! {

/// The first word of an id, which is what the maker calls its command and its
/// directory.
pub open spec fn first_word(id: Text) -> Text
    decreases id.len(),
{
    if id.len() == 0 || id[0] == '_' {
        Seq::empty()
    } else {
        seq![id[0]] + first_word(id.drop_first())
    }
}

/// An id as it is shown: each word begins with a capital, and a space stands
/// between words.
pub open spec fn title(id: Text) -> Text
    decreases id.len(),
{
    if id.len() == 0 {
        Seq::empty()
    } else {
        let before = title(id.drop_last());
        let c = id.last();
        if c == '_' {
            before.push(' ')
        } else if id.len() == 1 || id[id.len() - 2] == '_' {
            before.push(upper(c))
        } else {
            before.push(c)
        }
    }
}

proof fn first_word_ends(id: Text, n: int)
    requires
        0 <= n <= id.len(),
        forall|k: int| 0 <= k < n ==> #[trigger] id[k] != '_',
        n < id.len() ==> id[n] == '_',
    ensures
        first_word(id) == id.take(n),
    decreases n,
{
    if n > 0 {
        let rest = id.drop_first();
        assert(id[0] != '_');
        assert forall|k: int| 0 <= k < n - 1 implies #[trigger] rest[k] != '_' by {
            assert(rest[k] == id[k + 1]);
        }
        first_word_ends(rest, n - 1);
        assert(seq![id[0]] + rest.take(n - 1) =~= id.take(n));
    } else {
        assert(first_word(id) =~= id.take(0));
    }
}

/// The first word of an id.
pub fn first_word_of<'a>(id: &'a str) -> (s: &'a str)
    ensures
        s@ == first_word(id@),
{
    let n: usize = id.unicode_len();
    let mut i: usize = 0;
    while i < n && id.get_char(i) != '_'
        invariant
            n == id@.len(),
            i <= n,
            forall|k: int| 0 <= k < i ==> #[trigger] id@[k] != '_',
        decreases n - i,
    {
        i += 1;
    }
    let s = id.substring_char(0, i);
    proof {
        first_word_ends(id@, i as int);
        assert(s@ =~= id@.take(i as int));
    }
    s
}

/// An id as it is shown.
pub fn title_of(id: &str) -> (s: String)
    ensures
        s@ == title(id@),
{
    let n: usize = id.unicode_len();
    let mut s = "".to_owned();
    let mut i: usize = 0;
    proof {
        reveal_strlit("");
        reveal_strlit(" ");
        assert(s@ =~= title(id@.take(0)));
    }
    while i < n
        invariant
            n == id@.len(),
            i <= n,
            " "@ == seq![' '],
            s@ == title(id@.take(i as int)),
        decreases n - i,
    {
        let ghost before = s@;
        proof {
            assert(id@.take(i + 1).drop_last() =~= id@.take(i as int));
            assert(id@.take(i + 1).last() == id@[i as int]);
        }
        let letter = id.substring_char(i, i + 1);
        proof {
            assert(letter@ =~= seq![id@[i as int]]);
        }
        if id.get_char(i) == '_' {
            s.append(" ");
            proof {
                assert(s@ =~= before.push(' '));
            }
        } else if i == 0 || id.get_char(i - 1) == '_' {
            let capital = to_upper(letter);
            s.append(capital.as_str());
            proof {
                assert(s@ =~= before.push(upper(id@[i as int])));
            }
        } else {
            s.append(letter);
            proof {
                assert(s@ =~= before.push(id@[i as int]));
            }
        }
        i += 1;
    }
    proof {
        assert(id@.take(n as int) =~= id@);
    }
    s
}

/// The first word of an id is what stands before its first underscore.
pub proof fn law_a_first_word_ends_at_an_underscore(id: Text)
    ensures
        !first_word(id).contains('_'),
        first_word(id).len() <= id.len(),
        id.take(first_word(id).len() as int) == first_word(id),
        first_word(id).len() < id.len() ==> id[first_word(id).len() as int] == '_',
    decreases id.len(),
{
    if id.len() > 0 && id[0] != '_' {
        let rest = id.drop_first();
        law_a_first_word_ends_at_an_underscore(rest);
        let w = first_word(id);
        assert forall|k: int| 0 <= k < w.len() implies #[trigger] w[k] != '_' by {
            if k > 0 {
                assert(w[k] == first_word(rest)[k - 1]);
                assert(first_word(rest).contains(first_word(rest)[k - 1]));
            }
        }
        assert(id.take(w.len() as int) =~= w) by {
            assert forall|k: int| 0 <= k < w.len() implies id[k] == w[k] by {
                if k > 0 {
                    assert(rest.take(first_word(rest).len() as int)[k - 1] == rest[k - 1]);
                }
            }
        }
        if w.len() < id.len() {
            assert(id[w.len() as int] == rest[w.len() - 1]);
        }
    } else {
        assert(id.take(0) =~= first_word(id));
    }
}

/// An id is shown character by character: an underscore as a space, the first
/// letter of a word as a capital, and any other as it is.
pub proof fn law_a_title_capitalizes_words(id: Text)
    ensures
        title(id).len() == id.len(),
        forall|k: int|
            0 <= k < id.len() ==> #[trigger] title(id)[k] == if id[k] == '_' {
                ' '
            } else if k == 0 || id[k - 1] == '_' {
                upper(id[k])
            } else {
                id[k]
            },
    decreases id.len(),
{
    if id.len() > 0 {
        let d = id.drop_last();
        law_a_title_capitalizes_words(d);
        assert forall|k: int| 0 <= k < id.len() implies #[trigger] title(id)[k] == if id[k] == '_' {
            ' '
        } else if k == 0 || id[k - 1] == '_' {
            upper(id[k])
        } else {
            id[k]
        } by {
            if k < d.len() {
                assert(title(id)[k] == title(d)[k]);
                assert(d[k] == id[k]);
                if k > 0 {
                    assert(d[k - 1] == id[k - 1]);
                }
            }
        }
    }
}

} // verus!
