//! Extension extraction: the extension of a filename is the substring after
//! the final `.`, lowercased (ASCII); a name with no `.`, or ending in `.`,
//! has the empty extension.

use vstd::prelude::*;
use vstd::string::StrSliceExecFns;

verus! {

/// ASCII lowercasing of a single character: `A`..`Z` map to `a`..`z`,
/// every other character is unchanged.
pub open spec fn lower_char(c: char) -> char {
    if 'A' <= c && c <= 'Z' {
        ((c as u8) + 32) as char
    } else {
        c
    }
}

fn lower_char_exec(c: char) -> (r: char)
    ensures
        r == lower_char(c),
{
    if 'A' <= c && c <= 'Z' {
        ((c as u8) + 32) as char
    } else {
        c
    }
}

/// Index of the final `.` in `name`, or -1 if `name` holds no `.`.
pub open spec fn last_dot_index(name: Seq<char>) -> int
    decreases name.len(),
{
    if name.len() == 0 {
        -1
    } else if name.last() == '.' {
        name.len() - 1
    } else {
        last_dot_index(name.drop_last())
    }
}

/// `last_dot_index` points at a `.` and nothing after it is a `.`;
/// -1 means no `.` occurs at all.
pub proof fn lemma_last_dot_index(name: Seq<char>)
    ensures
        -1 <= last_dot_index(name) < name.len(),
        last_dot_index(name) >= 0 ==> name[last_dot_index(name)] == '.',
        forall|j: int| last_dot_index(name) < j < name.len() ==> name[j] != '.',
    decreases name.len(),
{
    if name.len() > 0 && name.last() != '.' {
        lemma_last_dot_index(name.drop_last());
        assert forall|j: int| last_dot_index(name) < j < name.len() implies name[j] != '.' by {
            if j < name.len() - 1 {
                assert(name.drop_last()[j] != '.');
            }
        }
    }
}

/// The extension of a filename: the characters after the final `.`,
/// ASCII-lowercased; empty when the name holds no `.` or ends in `.`.
pub open spec fn ext_spec(name: Seq<char>) -> Seq<char> {
    let ld = last_dot_index(name);
    if ld == -1 {
        Seq::<char>::empty()
    } else {
        Seq::new((name.len() - ld - 1) as nat, |k: int| lower_char(name[ld + 1 + k]))
    }
}

/// The computed extension is lowercase: no character of it is an ASCII
/// uppercase letter, whatever the filename holds.
pub proof fn lemma_extension_lowercase(name: Seq<char>)
    ensures
        forall|k: int|
            0 <= k < ext_spec(name).len() ==> !('A' <= #[trigger] ext_spec(name)[k]
                && ext_spec(name)[k] <= 'Z'),
{
    assert forall|k: int| 0 <= k < ext_spec(name).len() implies !('A' <= #[trigger] ext_spec(
        name,
    )[k] && ext_spec(name)[k] <= 'Z') by {
        let ld = last_dot_index(name);
        lemma_last_dot_index(name);
        let c = name[ld + 1 + k];
        assert(ext_spec(name)[k] == lower_char(c));
    }
}

/// Computes the extension of `name` as defined by `ext_spec`.
pub fn extension_of(name: &str) -> (ext: Vec<char>)
    ensures
        ext@ == ext_spec(name@),
{
    let n = name.unicode_len();
    let mut i: usize = 0;
    let mut last: Option<usize> = None;
    while i < n
        invariant
            n == name@.len(),
            i <= n,
            match last {
                Option::None => forall|j: int| 0 <= j < i ==> name@[j] != '.',
                Option::Some(d) => d < i && name@[d as int] == '.' && forall|j: int|
                    d < j < i ==> name@[j] != '.',
            },
        decreases n - i,
    {
        if name.get_char(i) == '.' {
            last = Some(i);
        }
        i += 1;
    }
    proof {
        lemma_last_dot_index(name@);
    }
    match last {
        None => {
            proof {
                assert(last_dot_index(name@) == -1) by {
                    if last_dot_index(name@) >= 0 {
                        assert(name@[last_dot_index(name@)] == '.');
                    }
                }
            }
            let ext: Vec<char> = Vec::new();
            assert(ext@ =~= ext_spec(name@));
            ext
        },
        Some(d) => {
            proof {
                assert(last_dot_index(name@) == d) by {
                    let ld = last_dot_index(name@);
                    if ld < d {
                        assert(name@[d as int] != '.');
                    } else if ld > d {
                        assert(name@[ld] != '.');
                    }
                }
            }
            let mut ext: Vec<char> = Vec::new();
            let mut j: usize = d + 1;
            while j < n
                invariant
                    n == name@.len(),
                    d < j <= n,
                    last_dot_index(name@) == d,
                    ext@.len() == j - d - 1,
                    forall|k: int| 0 <= k < ext@.len() ==> ext@[k] == lower_char(
                        name@[d + 1 + k],
                    ),
                decreases n - j,
            {
                ext.push(lower_char_exec(name.get_char(j)));
                j += 1;
            }
            assert(ext@ =~= ext_spec(name@));
            ext
        },
    }
}

/// Compares a character vector with a string slice, character by character.
pub fn chars_eq_str(v: &Vec<char>, s: &str) -> (r: bool)
    ensures
        r == (v@ == s@),
{
    let n = s.unicode_len();
    if v.len() != n {
        return false;
    }
    let mut i: usize = 0;
    while i < n
        invariant
            n == s@.len(),
            v@.len() == n,
            i <= n,
            forall|j: int| 0 <= j < i ==> v@[j] == s@[j],
        decreases n - i,
    {
        if v[i] != s.get_char(i) {
            return false;
        }
        i += 1;
    }
    proof {
        assert(v@ =~= s@);
    }
    true
}

} // verus!
