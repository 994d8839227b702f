//! Splitting the search-path value into its directories: the host
//! convention's single separator is the colon, and splitting on it follows
//! the usual rule that N separators delimit N + 1 segments, empty segments
//! included.

use vstd::prelude::*;

verus! {

/// The segments of `s` delimited by `sep`: always at least one segment, one
/// more for each separator, each segment free of the separator.
pub open spec fn split_on(s: Seq<char>, sep: char) -> Seq<Seq<char>>
    decreases s.len(),
{
    if s.len() == 0 {
        seq![Seq::<char>::empty()]
    } else if s.last() == sep {
        split_on(s.drop_last(), sep).push(Seq::<char>::empty())
    } else {
        let r = split_on(s.drop_last(), sep);
        r.update(r.len() - 1, r.last().push(s.last()))
    }
}

/// Splitting yields at least one segment.
pub proof fn lemma_split_on_len(s: Seq<char>, sep: char)
    ensures
        split_on(s, sep).len() >= 1,
    decreases s.len(),
{
    if s.len() > 0 {
        lemma_split_on_len(s.drop_last(), sep);
    }
}

/// Splits a search-path value on the colon into its ordered directory list.
pub fn split_on_colon(s: &str) -> (r: Vec<String>)
    ensures
        r.deep_view() == split_on(s@, ':'),
{
    let n = s.unicode_len();
    let mut done: Vec<String> = Vec::new();
    let mut start: usize = 0;
    let mut i: usize = 0;
    proof {
        lemma_split_on_len(s@.subrange(0, 0), ':');
        assert(done.deep_view() =~= split_on(s@.subrange(0, 0), ':').drop_last());
        assert(split_on(s@.subrange(0, 0), ':').last() =~= s@.subrange(0, 0));
    }
    while i < n
        invariant
            start <= i <= n,
            n == s@.len(),
            split_on(s@.subrange(0, i as int), ':').len() >= 1,
            done.deep_view() == split_on(s@.subrange(0, i as int), ':').drop_last(),
            split_on(s@.subrange(0, i as int), ':').last() == s@.subrange(start as int, i as int),
        decreases n - i,
    {
        let ghost segs = split_on(s@.subrange(0, i as int), ':');
        let c = s.get_char(i);
        proof {
            assert(s@.subrange(0, i + 1).drop_last() =~= s@.subrange(0, i as int));
            assert(s@.subrange(0, i + 1).last() == s@[i as int]);
            lemma_split_on_len(s@.subrange(0, i + 1), ':');
        }
        if c == ':' {
            let seg = String::from_str(s.substring_char(start, i));
            let ghost done_pre = done.deep_view();
            done.push(seg);
            proof {
                assert(done.deep_view() =~= done_pre.push(s@.subrange(start as int, i as int)));
                assert(split_on(s@.subrange(0, i + 1), ':') =~= segs.push(Seq::<char>::empty()));
                assert(segs.push(Seq::<char>::empty()).drop_last() =~= segs);
                assert(segs =~= segs.drop_last().push(segs.last()));
                assert(done.deep_view() =~= segs);
                assert(split_on(s@.subrange(0, i + 1), ':').last() =~= s@.subrange(i + 1, i + 1));
            }
            start = i + 1;
        } else {
            proof {
                let segs2 = split_on(s@.subrange(0, i + 1), ':');
                assert(segs2 =~= segs.update(segs.len() - 1, segs.last().push(s@[i as int])));
                assert(segs2.drop_last() =~= segs.drop_last());
                assert(segs2.last() =~= s@.subrange(start as int, i + 1));
            }
        }
        i = i + 1;
    }
    let seg = String::from_str(s.substring_char(start, n));
    let ghost done_pre = done.deep_view();
    done.push(seg);
    proof {
        let segs = split_on(s@.subrange(0, n as int), ':');
        assert(done.deep_view() =~= done_pre.push(s@.subrange(start as int, n as int)));
        assert(done.deep_view() =~= segs.drop_last().push(segs.last()));
        assert(segs =~= segs.drop_last().push(segs.last()));
        assert(s@.subrange(0, n as int) =~= s@);
    }
    done
}

} // verus!
