use vstd::prelude::*;

verus! {

/// The views of a sequence of byte buffers.
pub open spec fn seqs_of(bufs: Seq<&[u8]>) -> Seq<Seq<u8>> {
    bufs.map_values(|b: &[u8]| b@)
}

/// The concatenation of a sequence of byte sequences, in order.
///
/// This is the logical value that `put` files under its key: the caller
/// hands the record over as several buffers, and the store keeps their
/// exact, order-preserving concatenation.
pub open spec fn concat_of(bufs: Seq<Seq<u8>>) -> Seq<u8>
    decreases bufs.len(),
{
    if bufs.len() == 0 {
        Seq::empty()
    } else {
        concat_of(bufs.drop_last()) + bufs.last()
    }
}

/// Concatenates `buffers` in order into one contiguous byte value.
pub fn concat_buffers(buffers: &Vec<&[u8]>) -> (r: Vec<u8>)
    ensures
        r@ == concat_of(seqs_of(buffers@)),
{
    let mut out: Vec<u8> = Vec::new();
    let mut i: usize = 0;
    while i < buffers.len()
        invariant
            i <= buffers.len(),
            out@ == concat_of(seqs_of(buffers@.take(i as int))),
        decreases buffers.len() - i,
    {
        let b: &[u8] = buffers[i];
        let ghost prev = out@;
        let mut j: usize = 0;
        while j < b.len()
            invariant
                j <= b.len(),
                out@ == prev + b@.take(j as int),
            decreases b.len() - j,
        {
            out.push(b[j]);
            j = j + 1;
        }
        proof {
            assert(b@.take(b@.len() as int) =~= b@);
            assert(seqs_of(buffers@.take(i + 1)).drop_last() =~= seqs_of(buffers@.take(i as int)));
            assert(seqs_of(buffers@.take(i + 1)).last() == b@);
            assert(out@ =~= concat_of(seqs_of(buffers@.take(i + 1))));
        }
        i = i + 1;
    }
    proof {
        assert(buffers@.take(buffers.len() as int) =~= buffers@);
    }
    out
}

} // verus!
