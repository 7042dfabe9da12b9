use vstd::prelude::*;

verus! {

/// The byte that ends a line.
pub const LF: u8 = 10;

/// The byte that a line ending in `\r\n` loses along with the `\n`.
pub const CR: u8 = 13;

/// The pieces of `b` between `\n` bytes, in order: one more than there are
/// `\n` bytes, each without them.
pub open spec fn pieces(b: Seq<u8>) -> Seq<Seq<u8>>
    decreases b.len(),
{
    if b.len() == 0 {
        seq![Seq::empty()]
    } else {
        let p = pieces(b.drop_last());
        if b.last() == LF {
            p.push(Seq::empty())
        } else {
            p.update(p.len() - 1, p.last().push(b.last()))
        }
    }
}

/// A line that was ended by `\n` drops one `\r` right before it.
pub open spec fn strip_cr(l: Seq<u8>) -> Seq<u8> {
    if l.len() > 0 && l.last() == CR {
        l.drop_last()
    } else {
        l
    }
}

/// The lines of `b`, without their terminators. Text after the last `\n`
/// is a line when it is not empty; a `\r` at the very end stays.
pub open spec fn lines_of(b: Seq<u8>) -> Seq<Seq<u8>> {
    let p = pieces(b);
    let ended = p.drop_last().map_values(|l: Seq<u8>| strip_cr(l));
    if p.last().len() == 0 {
        ended
    } else {
        ended.push(p.last())
    }
}

proof fn lemma_pieces_nonempty(b: Seq<u8>)
    ensures
        pieces(b).len() >= 1,
    decreases b.len(),
{
    if b.len() > 0 {
        lemma_pieces_nonempty(b.drop_last());
    }
}

/// The byte ranges of the lines of `input`, in order.
pub fn line_ranges(input: &[u8]) -> (r: Vec<(usize, usize)>)
    ensures
        r@.len() == lines_of(input@).len(),
        forall|j: int|
            0 <= j < r@.len() ==> {
                &&& (#[trigger] r@[j]).0 <= r@[j].1 <= input@.len()
                &&& input@.subrange(r@[j].0 as int, r@[j].1 as int) == lines_of(input@)[j]
            },
{
    let mut r: Vec<(usize, usize)> = Vec::new();
    let mut start: usize = 0;
    let mut i: usize = 0;
    while i < input.len()
        invariant
            start <= i <= input@.len(),
            pieces(input@.subrange(0, i as int)).len() == r@.len() + 1,
            pieces(input@.subrange(0, i as int)).last() == input@.subrange(start as int, i as int),
            forall|j: int|
                0 <= j < r@.len() ==> {
                    &&& (#[trigger] r@[j]).0 <= r@[j].1 <= i
                    &&& input@.subrange(r@[j].0 as int, r@[j].1 as int) == strip_cr(
                        pieces(input@.subrange(0, i as int))[j],
                    )
                },
        decreases input@.len() - i,
    {
        let ghost pre = input@.subrange(0, i as int);
        let ghost next = input@.subrange(0, i + 1);
        assert(next.drop_last() == pre);
        assert(next.last() == input@[i as int]);
        proof {
            lemma_pieces_nonempty(pre);
        }
        if input[i] == LF {
            let mut end = i;
            if i > start && input[i - 1] == CR {
                end = i - 1;
                assert(input@.subrange(start as int, end as int) == input@.subrange(
                    start as int,
                    i as int,
                ).drop_last());
            }
            assert(input@.subrange(start as int, end as int) == strip_cr(pieces(pre).last()));
            r.push((start, end));
            start = i + 1;
            assert(input@.subrange(start as int, (i + 1) as int) == Seq::<u8>::empty());
        } else {
            assert(input@.subrange(start as int, (i + 1) as int) == input@.subrange(
                start as int,
                i as int,
            ).push(input@[i as int]));
        }
        i = i + 1;
    }
    let ghost all = input@.subrange(0, input@.len() as int);
    assert(all == input@);
    if start < input.len() {
        r.push((start, input.len()));
    }
    proof {
        let p = pieces(input@);
        let ended = p.drop_last().map_values(|l: Seq<u8>| strip_cr(l));
        assert forall|j: int| 0 <= j < r@.len() implies (#[trigger] r@[j]).0 <= r@[j].1
            <= input@.len() && input@.subrange(r@[j].0 as int, r@[j].1 as int) == lines_of(
            input@,
        )[j] by {
            if j < ended.len() {
                assert(ended[j] == strip_cr(p[j]));
            }
        }
    }
    r
}

} // verus!
