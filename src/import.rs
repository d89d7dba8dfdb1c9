use vstd::prelude::*;

verus! {

/// The lines of `s`, split at each line feed; a text without one is one line.
pub open spec fn split_lines(s: Seq<char>) -> Seq<Seq<char>>
    decreases s.len(),
{
    if s.len() == 0 {
        seq![Seq::<char>::empty()]
    } else {
        let l = split_lines(s.drop_last());
        if s.last() == '\n' {
            l.push(Seq::<char>::empty())
        } else {
            l.update(l.len() - 1, l.last().push(s.last()))
        }
    }
}

/// The lines of `s` that are not empty, in their order: one task each.
pub open spec fn nonempty_lines(s: Seq<char>) -> Seq<Seq<char>> {
    split_lines(s).filter(|l: Seq<char>| l.len() > 0)
}

proof fn lemma_split_lines_len(s: Seq<char>)
    ensures
        split_lines(s).len() >= 1,
    decreases s.len(),
{
    if s.len() > 0 {
        lemma_split_lines_len(s.drop_last());
    }
}

proof fn lemma_filter_last(l: Seq<Seq<char>>)
    requires
        l.len() >= 1,
    ensures
        l.filter(|x: Seq<char>| x.len() > 0) == (if l.last().len() > 0 {
            l.drop_last().filter(|x: Seq<char>| x.len() > 0).push(l.last())
        } else {
            l.drop_last().filter(|x: Seq<char>| x.len() > 0)
        }),
{
    reveal(Seq::filter);
}

/// The text of each line of `content` that is not empty, in file order.
pub fn import_lines(content: &str) -> (r: Vec<String>)
    ensures
        r@.map_values(|l: String| l@) == nonempty_lines(content@),
{
    let ghost s = content@;
    let n = content.unicode_len();
    let mut out: Vec<String> = Vec::new();
    let mut start: usize = 0;
    let mut i: usize = 0;
    proof {
        lemma_split_lines_len(s.subrange(0, 0));
        assert(s.subrange(0, 0) =~= Seq::<char>::empty());
        assert(out@.map_values(|l: String| l@) =~= split_lines(s.subrange(0, 0)).drop_last().filter(
            |x: Seq<char>| x.len() > 0,
        )) by {
            reveal(Seq::filter);
        }
    }
    while i < n
        invariant
            start <= i <= n,
            n == s.len(),
            s == content@,
            split_lines(s.subrange(0, i as int)).len() >= 1,
            split_lines(s.subrange(0, i as int)).last() == s.subrange(start as int, i as int),
            out@.map_values(|l: String| l@) == split_lines(s.subrange(0, i as int)).drop_last().filter(
                |x: Seq<char>| x.len() > 0,
            ),
        decreases n - i,
    {
        let ghost p = s.subrange(0, i as int);
        let ghost q = s.subrange(0, i + 1);
        let ghost old_out = out@;
        proof {
            assert(q.drop_last() =~= p);
            lemma_split_lines_len(q);
        }
        let c = content.get_char(i);
        if c == '\n' {
            proof {
                lemma_filter_last(split_lines(p));
                assert(split_lines(q).drop_last() =~= split_lines(p));
            }
            if start < i {
                let line = String::from_str(content.substring_char(start, i));
                out.push(line);
                assert(out@.map_values(|l: String| l@) =~= old_out.map_values(|l: String| l@).push(
                    s.subrange(start as int, i as int),
                ));
            }
            start = i + 1;
            assert(split_lines(q).last() =~= s.subrange(start as int, i + 1));
        } else {
            proof {
                let l = split_lines(p);
                assert(split_lines(q).drop_last() =~= l.drop_last());
                assert(split_lines(q).last() =~= s.subrange(start as int, i + 1));
            }
        }
        i += 1;
    }
    proof {
        assert(s.subrange(0, n as int) =~= s);
        lemma_filter_last(split_lines(s));
    }
    let ghost old_out = out@;
    if start < n {
        let line = String::from_str(content.substring_char(start, n));
        out.push(line);
        assert(out@.map_values(|l: String| l@) =~= old_out.map_values(|l: String| l@).push(
            s.subrange(start as int, n as int),
        ));
    }
    out
}

} // verus!
