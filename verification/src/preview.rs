use vstd::prelude::*;

use crate::scanner::{copy_bytes, lines_of, RevScanner};

verus! {

/// The view of each line in a collected list of lines.
pub open spec fn seq_views(s: Seq<Vec<u8>>) -> Seq<Seq<u8>> {
    s.map_values(|v: Vec<u8>| v@)
}

/// The last `n` lines of a byte text, in forward order; all of them when the
/// text has fewer than `n`.
pub open spec fn tail_lines(content: Seq<u8>, n: int) -> Seq<Seq<u8>> {
    let ls = lines_of(content);
    if n >= ls.len() {
        ls
    } else {
        ls.skip(ls.len() - n)
    }
}

/// The tail preview: the last `n` lines of the file content, returned in
/// forward (chronological) order, gathered by a backward scan that buffers no
/// more than `n` lines.
pub fn last_n_lines(content: &Vec<u8>, n: usize) -> (r: Vec<Vec<u8>>)
    ensures
        seq_views(r@) == tail_lines(content@, n as int),
{
    let ghost ls = lines_of(content@);
    let mut sc = RevScanner::new(copy_bytes(content));
    let mut rev_items: Vec<Vec<u8>> = Vec::new();
    let mut more: bool = true;
    proof {
        assert(ls.take(ls.len() as int) =~= ls);
    }
    while more && rev_items.len() < n
        invariant
            sc.wf(),
            ls == lines_of(content@),
            rev_items@.len() <= n,
            rev_items@.len() <= ls.len(),
            more ==> sc@ == ls.take(ls.len() - rev_items@.len()),
            !more ==> rev_items@.len() == ls.len(),
            forall|q: int|
                0 <= q < rev_items@.len() ==> rev_items@[q]@ == ls[ls.len() - 1 - q],
        decreases (if more {
            1int
        } else {
            0int
        }), n - rev_items@.len(),
    {
        let ghost before = sc@;
        match sc.next() {
            Some(l) => {
                proof {
                    assert(before.last() == ls[ls.len() - 1 - rev_items@.len()]);
                    assert(before.drop_last() =~= ls.take(
                        ls.len() - (rev_items@.len() + 1),
                    ));
                }
                rev_items.push(l);
            },
            None => {
                more = false;
            },
        }
    }
    let ghost k = rev_items@.len() as int;
    proof {
        assert(k == if n as int >= ls.len() {
            ls.len() as int
        } else {
            n as int
        });
    }
    let mut result: Vec<Vec<u8>> = Vec::new();
    let mut i: usize = rev_items.len();
    while i > 0
        invariant
            i <= rev_items@.len(),
            ls == lines_of(content@),
            rev_items@.len() <= ls.len(),
            forall|q: int|
                0 <= q < rev_items@.len() ==> rev_items@[q]@ == ls[ls.len() - 1 - q],
            result@.len() == rev_items@.len() - i,
            forall|q: int|
                0 <= q < result@.len() ==> result@[q]@ == ls[ls.len() - rev_items@.len() + q],
        decreases i,
    {
        i = i - 1;
        let l = copy_bytes(&rev_items[i]);
        result.push(l);
    }
    proof {
        assert(seq_views(result@) =~= tail_lines(content@, n as int));
    }
    result
}

} // verus!
