//! Reading chat lines: splitting the `<sender> content` shape that
//! player messages render as.

use vstd::prelude::*;

verus! {

/// Whether the message has the `<sender> content` shape with the closing
/// bracket at `i` (so a space follows it).
pub open spec fn spec_bracket_at(message: Seq<u8>, i: int) -> bool {
    &&& 0 < i
    &&& i + 1 < message.len()
    &&& message[0] == 60u8
    &&& message[i] == 62u8
    &&& message[i + 1] == 32u8
}

/// Split a rendered chat line into its sender and content: a line shaped
/// `<sender> content` yields both, split at the first closing bracket
/// that a space follows; any other line is all content.
pub fn split_sender_and_content(message: &Vec<u8>) -> (r: (Option<Vec<u8>>, Vec<u8>))
    ensures
        match r.0 {
            Some(sender) => exists|i: int| {
                &&& #[trigger] spec_bracket_at(message@, i)
                &&& forall|j: int| 0 < j < i ==> !spec_bracket_at(message@, j)
                &&& sender@ == message@.subrange(1, i)
                &&& r.1@ == message@.subrange(i + 2, message@.len() as int)
            },
            None => {
                &&& r.1@ == message@
                &&& forall|i: int| !spec_bracket_at(message@, i)
            },
        },
{
    if message.len() == 0 || message[0] != 60 {
        proof {
            assert forall|i: int| !spec_bracket_at(message@, i) by {}
        }
        return (None, copy_bytes(message, 0, message.len()));
    }
    let mut i: usize = 1;
    while i < message.len() - 1
        invariant
            1 <= i,
            i <= message.len(),
            message@.len() > 0,
            message@[0] == 60u8,
            forall|j: int| 0 < j < i ==> !spec_bracket_at(message@, j),
        decreases message.len() - i,
    {
        if message[i] == 62 && message[i + 1] == 32 {
            let sender = copy_bytes(message, 1, i);
            let content = copy_bytes(message, i + 2, message.len());
            proof {
                assert(spec_bracket_at(message@, i as int));
            }
            return (Some(sender), content);
        }
        i = i + 1;
    }
    proof {
        assert forall|k: int| !spec_bracket_at(message@, k) by {
            if 0 < k && k + 1 < message@.len() {
                assert(!spec_bracket_at(message@, k));
            }
        }
    }
    (None, copy_bytes(message, 0, message.len()))
}

/// The bytes of `[from, to)`, copied out.
fn copy_bytes(message: &Vec<u8>, from: usize, to: usize) -> (r: Vec<u8>)
    requires
        from <= to <= message.len(),
    ensures
        r@ == message@.subrange(from as int, to as int),
{
    let mut r: Vec<u8> = Vec::new();
    let mut i: usize = from;
    while i < to
        invariant
            from <= i <= to <= message.len(),
            r@ =~= message@.subrange(from as int, i as int),
        decreases to - i,
    {
        r.push(message[i]);
        proof {
            assert(r@ =~= message@.subrange(from as int, i + 1));
        }
        i = i + 1;
    }
    r
}

} // verus!
