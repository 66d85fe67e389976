//! Stems: file names without their final extension.

use vstd::prelude::*;

verus! {

/// Position of the last `.` in `name`, or -1 where it holds none.
pub open spec fn last_dot(name: Seq<char>) -> int
    decreases name.len(),
{
    if name.len() == 0 {
        -1
    } else if name.last() == '.' {
        name.len() - 1
    } else {
        last_dot(name.drop_last())
    }
}

/// The name `..`, which stands for a parent directory and has no extension.
pub open spec fn parent_name() -> Seq<char> {
    seq!['.', '.']
}

/// A name has an extension where a `.` that is not its first character
/// splits it. A leading dot alone marks a hidden file, not an extension.
pub open spec fn has_extension(name: Seq<char>) -> bool {
    last_dot(name) > 0 && name != parent_name()
}

/// The stem of a file name: the name up to its last `.`, or the whole name
/// where it has no extension.
pub open spec fn stem_of(name: Seq<char>) -> Seq<char> {
    if has_extension(name) {
        name.subrange(0, last_dot(name))
    } else {
        name
    }
}

/// `last_dot` finds a `.`, and no `.` stands behind it.
pub proof fn lemma_last_dot(name: Seq<char>)
    ensures
        -1 <= last_dot(name) < name.len(),
        last_dot(name) >= 0 ==> name[last_dot(name)] == '.',
        forall|j: int| last_dot(name) < j < name.len() ==> name[j] != '.',
    decreases name.len(),
{
    if name.len() > 0 && name.last() != '.' {
        let shorter = name.drop_last();
        lemma_last_dot(shorter);
        assert forall|j: int| last_dot(name) < j < name.len() implies name[j] != '.' by {
            if j < shorter.len() {
                assert(shorter[j] == name[j]);
            }
        }
    }
}

/// A name that holds no `.` has no extension.
pub proof fn lemma_no_dot_no_extension(name: Seq<char>)
    requires
        forall|i: int| 0 <= i < name.len() ==> name[i] != '.',
    ensures
        !has_extension(name),
{
    lemma_last_dot(name);
}

/// Reducing a name that has no extension gives the name back unchanged: a
/// name that holds no `.`, a hidden file's name with its one leading dot,
/// and `..`.
pub proof fn lemma_stem_without_extension(name: Seq<char>)
    requires
        !has_extension(name),
    ensures
        stem_of(name) == name,
        stem_of(stem_of(name)) == stem_of(name),
{
}

/// Only the final suffix goes: the stem is the name up to its last `.`, so
/// every earlier `.` stays, and the stem is never longer than the name.
pub proof fn lemma_stem_is_prefix(name: Seq<char>)
    ensures
        stem_of(name).len() <= name.len(),
        stem_of(name) == name.subrange(0, stem_of(name).len() as int),
        has_extension(name) ==> name[stem_of(name).len() as int] == '.' && forall|j: int|
            stem_of(name).len() < j < name.len() ==> name[j] != '.',
{
    lemma_last_dot(name);
    assert(name.subrange(0, name.len() as int) =~= name);
}

/// What an optional text holds.
pub open spec fn text_view(text: Option<String>) -> Option<Seq<char>> {
    match text {
        Some(text) => Some(text@),
        None => None,
    }
}

/// Reduces a file name to its stem.
pub fn file_stem(name: &str) -> (stem: String)
    ensures
        stem@ == stem_of(name@),
{
    let n: usize = name.unicode_len();
    let mut dot: Option<usize> = None;
    let mut i: usize = 0;
    while i < n
        invariant
            n == name@.len(),
            i <= n,
            dot is None ==> last_dot(name@.subrange(0, i as int)) == -1,
            dot is Some ==> last_dot(name@.subrange(0, i as int)) == dot.unwrap(),
        decreases n - i,
    {
        let c = name.get_char(i);
        proof {
            let before = name@.subrange(0, i as int);
            let after = name@.subrange(0, i + 1);
            assert(after.drop_last() =~= before);
            assert(after.last() == c);
        }
        if c == '.' {
            dot = Some(i);
        }
        i += 1;
    }
    proof {
        assert(name@.subrange(0, n as int) =~= name@);
    }
    match dot {
        Some(d) => {
            if d == 0 {
                String::from_str(name)
            } else if n == 2 && name.get_char(0) == '.' {
                proof {
                    lemma_last_dot(name@);
                    assert(name@ =~= parent_name());
                }
                String::from_str(name)
            } else {
                proof {
                    lemma_last_dot(name@);
                    if name@ == parent_name() {
                        assert(name@.len() == 2);
                        assert(name@[0] == '.');
                    }
                }
                String::from_str(name.substring_char(0, d))
            }
        },
        None => String::from_str(name),
    }
}

} // verus!
