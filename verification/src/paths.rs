//! The path rule for input files: only an existing `.glif` file is accepted,
//! and the extension test is pure text work, done here.

use vstd::prelude::*;

verus! {

/// The index of the last occurrence of `c` in `s`, or `-1` when `c` does
/// not occur.
pub open spec fn last_occurrence(s: Seq<char>, c: char) -> int
    decreases s.len(),
{
    if s.len() == 0 {
        -1
    } else if s.last() == c {
        s.len() - 1
    } else {
        last_occurrence(s.drop_last(), c)
    }
}

/// The last occurrence of a character lies inside the text, or is `-1`.
proof fn lemma_last_occurrence_bounds(s: Seq<char>, c: char)
    ensures
        -1 <= last_occurrence(s, c) < s.len(),
    decreases s.len(),
{
    if s.len() > 0 && s.last() != c {
        lemma_last_occurrence_bounds(s.drop_last(), c);
    }
}

/// The path, read as text with `/` separating components, names a file with
/// the `glif` extension: its final component holds a `.` that is not its
/// first character, and the text after the last `.` is exactly `glif`.
pub open spec fn is_glif_path(s: Seq<char>) -> bool {
    let dot = last_occurrence(s, '.');
    dot > last_occurrence(s, '/') + 1 && s.subrange(dot + 1, s.len() as int) == "glif"@
}

/// Decide whether a path's text names a `.glif` file.
///
/// Whether the file exists is not decided here: that takes the filesystem,
/// and stays with the caller.
pub fn has_glif_extension(path: &str) -> (r: bool)
    ensures
        r == is_glif_path(path@),
{
    let n = path.unicode_len();
    let mut dot: Option<usize> = None;
    let mut slash: Option<usize> = None;
    let mut i: usize = 0;
    while i < n
        invariant
            i <= n,
            n == path@.len(),
            dot is None ==> last_occurrence(path@.take(i as int), '.') == -1,
            dot matches Some(d) ==> last_occurrence(path@.take(i as int), '.') == d && d < i,
            slash is None ==> last_occurrence(path@.take(i as int), '/') == -1,
            slash matches Some(sl) ==> last_occurrence(path@.take(i as int), '/') == sl && sl < i,
        decreases n - i,
    {
        let ch = path.get_char(i);
        proof {
            assert(path@.take(i + 1).drop_last() =~= path@.take(i as int));
            assert(path@.take(i + 1).last() == path@[i as int]);
        }
        if ch == '.' {
            dot = Some(i);
        }
        if ch == '/' {
            slash = Some(i);
        }
        i = i + 1;
    }
    proof {
        assert(path@.take(n as int) =~= path@);
    }
    let d = match dot {
        Some(d) => d,
        None => {
            proof {
                lemma_last_occurrence_bounds(path@, '/');
            }
            return false;
        },
    };
    let after_slash_ok = match slash {
        Some(sl) => d > sl + 1,
        None => d > 0,
    };
    if !after_slash_ok {
        return false;
    }
    if n - d != 5 {
        proof {
            reveal_strlit("glif");
            assert(path@.subrange(d + 1, n as int).len() != "glif"@.len());
        }
        return false;
    }
    let ok = path.get_char(d + 1) == 'g' && path.get_char(d + 2) == 'l' && path.get_char(d + 3)
        == 'i' && path.get_char(d + 4) == 'f';
    proof {
        reveal_strlit("glif");
        let q = path@.subrange(d + 1, n as int);
        assert(q[0] == path@[d + 1] && q[1] == path@[d + 2] && q[2] == path@[d + 3] && q[3]
            == path@[d + 4]);
        if ok {
            assert(q =~= "glif"@);
        }
    }
    ok
}

} // verus!
