//! The quoted command string.
//!
//! The status and diagnostic lines quote the command as one string:
//! the executable and its arguments joined by single spaces. The
//! words themselves are passed through verbatim; no shell
//! interpretation happens anywhere.

use vstd::prelude::*;

verus! {

/// Words joined by single spaces, with nothing before the first word
/// or after the last.
pub open spec fn join_spaces(parts: Seq<Seq<char>>) -> Seq<char>
    decreases parts.len(),
{
    if parts.len() == 0 {
        Seq::<char>::empty()
    } else if parts.len() == 1 {
        parts[0]
    } else {
        join_spaces(parts.drop_last()) + " "@ + parts.last()
    }
}

/// The full command string quoted by the status lines: every word of
/// `values` in order, space-separated.
pub fn get_full_command_str_from_values(values: &Vec<String>) -> (r: String)
    ensures
        r@ == join_spaces(values@.map_values(|v: String| v@)),
{
    let ghost words = values@.map_values(|v: String| v@);
    let mut r = String::new();
    let mut i: usize = 0;
    while i < values.len()
        invariant
            0 <= i <= values.len(),
            words == values@.map_values(|v: String| v@),
            words.len() == values.len(),
            r@ == join_spaces(words.take(i as int)),
        decreases values.len() - i,
    {
        if i > 0 {
            r.append(" ");
        }
        r.append(values[i].as_str());
        proof {
            assert(words[i as int] == values@[i as int]@);
            assert(words.take(i + 1).drop_last() =~= words.take(i as int));
            assert(words.take(i + 1).last() == words[i as int]);
            if i == 0 {
                assert(r@ =~= words[0]);
            } else {
                assert(r@ =~= join_spaces(words.take(i as int)) + " "@ + words[i as int]);
            }
            assert(r@ =~= join_spaces(words.take(i + 1)));
        }
        i = i + 1;
    }
    proof {
        assert(words.take(values.len() as int) =~= words);
    }
    r
}

} // verus!
