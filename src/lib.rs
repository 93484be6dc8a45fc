//! Run-length expansion of a growable buffer: the trailing fragment of a
//! buffer is repeated until a requested number of elements has been appended.
//! Each round copies the whole region repeated so far, so the number of bulk
//! copies grows with the logarithm of the fill count.

use vstd::prelude::*;

verus! {

/// The buffer `s` after `n` elements were appended, the `i`-th of them being
/// `s[len(s) - f + (i mod f)]`: the naive, one element at a time, result.
pub open spec fn expanded<T>(s: Seq<T>, f: nat, n: nat) -> Seq<T> {
    s + Seq::new(n, |i: int| s[s.len() - f + (i % (f as int))])
}

/// A request to repeat the last `fragment_len` elements of a buffer of length
/// `buffer_len` until `items_to_fill` elements were added can be carried out:
/// the fragment is non-empty, lies within the buffer, and the grown length
/// fits in `usize`.
pub open spec fn request_valid(buffer_len: nat, fragment_len: nat, items_to_fill: nat) -> bool {
    &&& fragment_len != 0
    &&& fragment_len <= buffer_len
    &&& buffer_len + items_to_fill <= usize::MAX
}

/// Why a request cannot be carried out.
#[derive(Clone, Copy, Debug, PartialEq, Eq, Structural)]
pub enum RequestError {
    /// The fragment to repeat is empty.
    ZeroFragment,
    /// The fragment is longer than the buffer.
    FragmentExceedsBuffer,
    /// The grown buffer's length would not fit in `usize`.
    SizeOverflow,
}

/// Checks a request before any buffer is touched, and names the first
/// condition that it breaks, in the order: empty fragment, fragment longer
/// than the buffer, length overflow.
pub fn check_request(buffer_len: usize, fragment_len: usize, items_to_fill: usize) -> (r: Result<
    (),
    RequestError,
>)
    ensures
        r is Ok <==> request_valid(buffer_len as nat, fragment_len as nat, items_to_fill as nat),
        r == Err::<(), RequestError>(RequestError::ZeroFragment) <==> fragment_len == 0,
        r == Err::<(), RequestError>(RequestError::FragmentExceedsBuffer) <==> (fragment_len != 0
            && fragment_len > buffer_len),
        r == Err::<(), RequestError>(RequestError::SizeOverflow) <==> (fragment_len != 0
            && fragment_len <= buffer_len && buffer_len + items_to_fill > usize::MAX),
{
    if fragment_len == 0 {
        Err(RequestError::ZeroFragment)
    } else if fragment_len > buffer_len {
        Err(RequestError::FragmentExceedsBuffer)
    } else if buffer_len.checked_add(items_to_fill).is_none() {
        Err(RequestError::SizeOverflow)
    } else {
        Ok(())
    }
}

/// Appends a copy of `buffer[start..end]` to the end of `buffer`.
///
/// The source range ends at or before the old length, where writing starts,
/// so every element copied was there before the call.
fn append_from_within<T: Copy>(buffer: &mut Vec<T>, start: usize, end: usize)
    requires
        start <= end <= old(buffer).len(),
        old(buffer).len() + (end - start) <= usize::MAX,
    ensures
        final(buffer)@ == old(buffer)@ + old(buffer)@.subrange(start as int, end as int),
{
    let count = end - start;
    buffer.reserve(count);
    let ghost before = buffer@;
    let mut i: usize = start;
    while i < end
        invariant
            start <= i <= end,
            end <= before.len(),
            buffer@ == before + before.subrange(start as int, i as int),
        decreases end - i,
    {
        let item: T = buffer[i];
        buffer.push(item);
        i = i + 1;
        assert(buffer@ =~= before + before.subrange(start as int, i as int));
    }
}

/// Every element of the expanded buffer from the fragment's start on is the
/// fragment's element at the same offset modulo the fragment's length.
proof fn lemma_expanded_periodic<T>(s: Seq<T>, f: nat, n: nat, p: int)
    requires
        0 < f <= s.len(),
        s.len() - f <= p < s.len() + n,
    ensures
        expanded(s, f, n)[p] == s[s.len() - f + (p - (s.len() - f)) % (f as int)],
{
    let start = s.len() - f;
    if p < s.len() {
        assert((p - start) % (f as int) == p - start) by {
            vstd::arithmetic::div_mod::lemma_small_mod((p - start) as nat, f);
        }
    } else {
        assert((p - start) % (f as int) == (p - s.len()) % (f as int)) by {
            vstd::arithmetic::div_mod::lemma_mod_add_multiples_vanish(p - s.len(), f as int);
        }
    }
}

/// Repeats the last `repeating_fragment_len` elements of `buffer` until
/// `items_to_fill` elements have been appended; the last copy may be cut
/// short.
///
/// Each round copies the region from the fragment's start as far as it has
/// been filled, so the length copied doubles from one round to the next.
pub fn rle_decode<T: Copy>(buffer: &mut Vec<T>, repeating_fragment_len: usize, items_to_fill: usize)
    requires
        request_valid(old(buffer).len() as nat, repeating_fragment_len as nat, items_to_fill as nat),
    ensures
        final(buffer)@ == expanded(old(buffer)@, repeating_fragment_len as nat, items_to_fill as nat),
        final(buffer)@.len() == old(buffer)@.len() + items_to_fill,
{
    let ghost orig = buffer@;
    let ghost f0 = repeating_fragment_len as int;
    let ghost n0 = items_to_fill as int;
    let copy_fragment_start = buffer.len() - repeating_fragment_len;
    buffer.reserve(items_to_fill);
    let mut fragment_len = repeating_fragment_len;
    let mut remaining = items_to_fill;
    let ghost mut rounds: int = 0;
    while remaining > 0
        invariant
            0 < f0 <= orig.len(),
            orig.len() + n0 <= usize::MAX,
            copy_fragment_start == orig.len() - f0,
            0 <= remaining <= n0,
            buffer@ == expanded(orig, f0 as nat, (n0 - remaining) as nat),
            remaining > 0 ==> fragment_len == f0 + (n0 - remaining),
            remaining > 0 ==> rounds >= 0 && n0 - remaining == f0 * rounds,
        decreases remaining,
    {
        let ghost done = n0 - remaining;
        let ghost cur = buffer@;
        let fill_size = if fragment_len < remaining {
            fragment_len
        } else {
            remaining
        };
        append_from_within(buffer, copy_fragment_start, copy_fragment_start + fill_size);
        proof {
            let next = expanded(orig, f0 as nat, (done + fill_size) as nat);
            assert forall|k: int| 0 <= k < next.len() implies #[trigger] buffer@[k] == next[k] by {
                if k < orig.len() + done {
                    assert(buffer@[k] == cur[k]);
                } else {
                    let j = k - (orig.len() + done);
                    let start = copy_fragment_start as int;
                    assert(buffer@[k] == cur[start + j]);
                    lemma_expanded_periodic(orig, f0 as nat, done as nat, start + j);
                    assert((done + j) % f0 == j % f0) by {
                        vstd::arithmetic::div_mod::lemma_mod_multiples_vanish(rounds, j, f0);
                    }
                }
            }
            assert(buffer@ =~= next);
        }
        remaining = remaining - fill_size;
        if remaining > 0 {
            proof {
                assert(f0 * (2 * rounds + 1) == 2 * (f0 * rounds) + f0) by (nonlinear_arith);
                rounds = 2 * rounds + 1;
            }
            fragment_len = fragment_len * 2;
        }
    }
}

/// Filling zero elements leaves any buffer as it is, whatever the fragment.
pub proof fn lemma_zero_fill_unchanged<T>(s: Seq<T>, f: nat)
    requires
        0 < f <= s.len(),
    ensures
        expanded(s, f, 0) == s,
{
    assert(expanded(s, f, 0) =~= s);
}

/// A request is refused when the fragment is empty, whatever the buffer and
/// the fill count; when the fragment is longer than the buffer, an empty
/// buffer included; and when the grown length would exceed `usize::MAX`.
pub proof fn lemma_invalid_requests_refused(buffer_len: nat, fragment_len: nat, items_to_fill: nat)
    ensures
        fragment_len == 0 ==> !request_valid(buffer_len, fragment_len, items_to_fill),
        fragment_len > buffer_len ==> !request_valid(buffer_len, fragment_len, items_to_fill),
        buffer_len + items_to_fill > usize::MAX ==> !request_valid(
            buffer_len,
            fragment_len,
            items_to_fill,
        ),
{
}

} // verus!
