//! Role classification: a session id's position in the grid decides whether
//! the session belongs to the Stimulus, Will, or Supply layer.
//!
//! The zero-based index of a session is read from the decimal suffix of its
//! id (0 when there is none, or when it does not fit the machine word); the
//! grid column is the index modulo the configured column count.

use vstd::prelude::*;
use vstd::string::*;

verus! {

/// One layer of the three-layer workflow model.
#[derive(Clone, Copy, Debug, PartialEq, Eq, Structural)]
pub enum Role {
    Supply,
    Will,
    Stimulus,
}

/// Whether `c` is a decimal digit character.
pub open spec fn is_digit(c: char) -> bool {
    48 <= c as u32 <= 57
}

/// The value of the decimal digit character `c`.
pub open spec fn digit_value(c: char) -> nat {
    (c as u32 - 48) as nat
}

/// The longest all-digit suffix of `s`.
pub open spec fn digit_suffix(s: Seq<char>) -> Seq<char>
    decreases s.len(),
{
    if s.len() == 0 {
        s
    } else if is_digit(s.last()) {
        digit_suffix(s.drop_last()).push(s.last())
    } else {
        Seq::empty()
    }
}

/// The number written by a sequence of digit characters, read most
/// significant digit first.
pub open spec fn digits_value(s: Seq<char>) -> nat
    decreases s.len(),
{
    if s.len() == 0 {
        0
    } else {
        digits_value(s.drop_last()) * 10 + digit_value(s.last())
    }
}

/// The grid index encoded in a session id: the value of its decimal suffix,
/// or 0 when the id has no digit suffix or the value does not fit in a
/// machine word.
pub open spec fn spec_cell_index(id: Seq<char>) -> nat {
    if digit_suffix(id).len() == 0 || digits_value(digit_suffix(id)) > usize::MAX {
        0
    } else {
        digits_value(digit_suffix(id))
    }
}

/// The role of the session with grid index `index`, in a grid of `cols`
/// columns (`cols` is clamped to at least 1): the rightmost column is
/// Stimulus, the one before it Will, everything else Supply.
pub open spec fn spec_role_of_index(index: nat, cols: nat) -> Role {
    let c = if cols < 1 { 1nat } else { cols };
    let col = index % c;
    if col == c - 1 {
        Role::Stimulus
    } else if c >= 2 && col == c - 2 {
        Role::Will
    } else {
        Role::Supply
    }
}

/// The role of the session with id `id` in a grid of `cols` columns.
pub open spec fn spec_cell_role(id: Seq<char>, cols: nat) -> Role {
    spec_role_of_index(spec_cell_index(id), cols)
}

/// Reading one more digit never shrinks the value a digit prefix writes.
proof fn lemma_digits_value_prefix_le(s: Seq<char>, k: int)
    requires
        0 <= k <= s.len(),
    ensures
        digits_value(s.subrange(0, k)) <= digits_value(s),
    decreases s.len() - k,
{
    if k < s.len() {
        lemma_digits_value_prefix_le(s, k + 1);
        let p = s.subrange(0, k + 1);
        assert(p.drop_last() =~= s.subrange(0, k));
        assert(digits_value(s.subrange(0, k)) <= digits_value(p));
    } else {
        assert(s.subrange(0, k) =~= s);
    }
}

/// Reads the grid index from the decimal suffix of `id`.
pub fn cell_index(id: &str) -> (r: usize)
    ensures
        r as nat == spec_cell_index(id@),
{
    let len = id.unicode_len();
    // Find where the all-digit suffix starts.
    let mut start: usize = len;
    proof {
        assert(id@.subrange(0, len as int) =~= id@);
        assert(digit_suffix(id@) =~= digit_suffix(id@.subrange(0, len as int))
            + id@.subrange(len as int, len as int));
    }
    loop
        invariant
            0 <= start <= len,
            len == id@.len(),
            digit_suffix(id@) == digit_suffix(id@.subrange(0, start as int))
                + id@.subrange(start as int, len as int),
            forall|j: int| start <= j < len ==> is_digit(id@[j]),
        ensures
            0 <= start <= len,
            len == id@.len(),
            digit_suffix(id@) == id@.subrange(start as int, len as int),
            forall|j: int| start <= j < len ==> is_digit(id@[j]),
        decreases start,
    {
        if start == 0 {
            proof {
                assert(id@.subrange(0, 0).len() == 0);
                assert(digit_suffix(id@) =~= id@.subrange(0, len as int));
            }
            break;
        }
        let c = id.get_char(start - 1);
        if !(('0' as u32 <= c as u32) && (c as u32 <= '9' as u32)) {
            proof {
                let head = id@.subrange(0, start as int);
                assert(head.last() == id@[start as int - 1]);
                assert(digit_suffix(head).len() == 0);
                assert(digit_suffix(id@) =~= id@.subrange(start as int, len as int));
            }
            break;
        }
        proof {
            let head = id@.subrange(0, start as int);
            assert(head.last() == id@[start as int - 1]);
            assert(is_digit(head.last()));
            assert(head.drop_last() =~= id@.subrange(0, start as int - 1));
            assert(digit_suffix(head) == digit_suffix(head.drop_last()).push(head.last()));
            assert(digit_suffix(id@) =~= digit_suffix(id@.subrange(0, start as int - 1))
                + id@.subrange(start as int - 1, len as int));
        }
        start = start - 1;
    }

    let ghost suffix = digit_suffix(id@);
    if start == len {
        proof {
            assert(suffix.len() == 0);
        }
        return 0;
    }

    // Accumulate the suffix value, watching for overflow.
    let mut val: usize = 0;
    let mut i: usize = start;
    while i < len
        invariant
            start <= i <= len,
            len == id@.len(),
            suffix == digit_suffix(id@),
            suffix == id@.subrange(start as int, len as int),
            forall|j: int| start <= j < len ==> is_digit(id@[j]),
            val as nat == digits_value(id@.subrange(start as int, i as int)),
        decreases len - i,
    {
        let c = id.get_char(i);
        let d: usize = (c as u32 - 48) as usize;
        proof {
            assert(is_digit(id@[i as int]));
            assert(d < 10);
        }
        if val > usize::MAX / 10 || (val == usize::MAX / 10 && d > usize::MAX % 10) {
            // The suffix value exceeds the machine word: the id is unparsable.
            proof {
                let p = id@.subrange(start as int, i as int + 1);
                assert(p.drop_last() =~= id@.subrange(start as int, i as int));
                assert(digits_value(p) == val * 10 + d);
                assert(val * 10 + d > usize::MAX) by {
                    assert(val >= usize::MAX / 10);
                    if val == usize::MAX / 10 {
                        assert(val * 10 == (usize::MAX / 10) * 10);
                    } else {
                        assert(val >= usize::MAX / 10 + 1);
                        assert(val * 10 >= (usize::MAX / 10 + 1) * 10);
                    }
                }
                assert(suffix =~= id@.subrange(start as int, len as int));
                lemma_digits_value_prefix_le(suffix, i + 1 - start);
                assert(suffix.subrange(0, i + 1 - start) =~= p);
                assert(digits_value(suffix) > usize::MAX);
            }
            return 0;
        }
        proof {
            assert(val * 10 + d <= usize::MAX) by {
                assert(val <= usize::MAX / 10);
                assert(val * 10 <= (usize::MAX / 10) * 10);
                if val == usize::MAX / 10 {
                    assert(d <= usize::MAX % 10);
                }
            }
            let p = id@.subrange(start as int, i as int + 1);
            assert(p.drop_last() =~= id@.subrange(start as int, i as int));
        }
        val = val * 10 + d;
        i = i + 1;
    }
    proof {
        assert(id@.subrange(start as int, len as int) =~= suffix);
    }
    val
}




/// Classifies the session `cell_id` into its workflow layer for a grid of
/// `cols` columns.
pub fn get_cell_role(cell_id: &str, cols: usize) -> (r: Role)
    ensures
        r == spec_cell_role(cell_id@, cols as nat),
{
    let index = cell_index(cell_id);
    let c = if cols < 1 { 1 } else { cols };
    let col = index % c;
    if col == c - 1 {
        Role::Stimulus
    } else if c >= 2 && col == c - 2 {
        Role::Will
    } else {
        Role::Supply
    }
}

} // verus!
