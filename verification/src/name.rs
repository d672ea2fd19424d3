//! Converted-filename derivation: the base of the original name (everything
//! before the last `.`, or the whole name when it has none) with the target
//! format's lowercase canonical extension appended.

use vstd::prelude::*;
use vstd::string::StrSliceExecFns;
use vstd::string::StringExecFns;
use crate::format::Format;
use crate::format::spec_extension;

verus! {

/// Index of the last `.` in a string, or `-1` when it has none.
pub open spec fn last_dot(s: Seq<char>) -> int
    decreases s.len(),
{
    if s.len() == 0 {
        -1
    } else if s[s.len() - 1] == '.' {
        s.len() - 1
    } else {
        last_dot(s.drop_last())
    }
}

/// The base of a filename: everything before the last `.`, or the whole
/// name when it contains no `.`.
pub open spec fn base_of(s: Seq<char>) -> Seq<char> {
    if last_dot(s) < 0 {
        s
    } else {
        s.subrange(0, last_dot(s))
    }
}

proof fn lemma_last_dot_range(s: Seq<char>)
    ensures
        -1 <= last_dot(s) < s.len(),
    decreases s.len(),
{
    if s.len() > 0 && s[s.len() - 1] != '.' {
        lemma_last_dot_range(s.drop_last());
    }
}

/// When no `.` occurs at or after index `i`, the last dot of the whole
/// string is the last dot of its first `i` characters.
proof fn lemma_last_dot_take(s: Seq<char>, i: int)
    requires
        0 <= i <= s.len(),
        forall|j: int| i <= j < s.len() ==> s[j] != '.',
    ensures
        last_dot(s) == last_dot(s.take(i)),
    decreases s.len() - i,
{
    if i == s.len() {
        assert(s.take(i) =~= s);
    } else {
        assert(s[s.len() - 1] != '.');
        lemma_last_dot_take(s.drop_last(), i);
        assert(s.drop_last().take(i) =~= s.take(i));
    }
}

/// Derives the converted filename for a target format: the base of `name`
/// followed by `.` and the format's lowercase canonical extension.
pub fn derive_converted_name(name: &str, f: Format) -> (r: String)
    ensures
        r@ == base_of(name@) + "."@ + spec_extension(f),
{
    let n = name.unicode_len();
    let mut i = n;
    while i > 0 && name.get_char(i - 1) != '.'
        invariant
            0 <= i <= n,
            n == name@.len(),
            forall|j: int| i <= j < n ==> name@[j] != '.',
        decreases i,
    {
        i = i - 1;
    }
    let base: &str = if i == 0 {
        proof {
            lemma_last_dot_take(name@, 0);
            assert(name@.take(0) =~= Seq::<char>::empty());
            assert(base_of(name@) =~= name@);
        }
        name
    } else {
        proof {
            lemma_last_dot_take(name@, i as int);
            lemma_last_dot_range(name@.take(i as int));
            assert(name@.take(i as int)[i - 1] == '.');
            assert(last_dot(name@.take(i as int)) == i - 1);
            assert(base_of(name@) =~= name@.subrange(0, i - 1));
        }
        name.substring_char(0, i - 1)
    };
    let mut r = base.to_owned();
    r.append(".");
    let ext = f.extension();
    r.append(ext.as_str());
    r
}

} // verus!
