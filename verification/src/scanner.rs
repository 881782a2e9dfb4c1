use vstd::prelude::*;

verus! {

/// The line-terminator byte.
pub const NL: u8 = 10;

/// The carriage-return byte.
pub const CR: u8 = 13;

/// Index of the last newline byte of `s` strictly before position `e`, or -1
/// when no newline stands there.
pub open spec fn rfind_nl(s: Seq<u8>, e: int) -> int
    decreases e,
{
    if e <= 0 {
        -1
    } else if s[e - 1] == NL {
        e - 1
    } else {
        rfind_nl(s, e - 1)
    }
}

pub proof fn lemma_rfind_nl(s: Seq<u8>, e: int)
    ensures
        -1 <= rfind_nl(s, e) < e || (e <= 0 && rfind_nl(s, e) == -1),
        rfind_nl(s, e) >= 0 ==> s[rfind_nl(s, e)] == NL,
        forall|k: int| rfind_nl(s, e) < k < e ==> s[k] != NL,
    decreases e,
{
    if e > 0 && s[e - 1] != NL {
        lemma_rfind_nl(s, e - 1);
    }
}

/// `rfind_nl` is pinned down by its characteristic properties.
pub proof fn lemma_rfind_nl_unique(s: Seq<u8>, e: int, m: int)
    requires
        -1 <= m < e || (e <= 0 && m == -1),
        m >= 0 ==> s[m] == NL,
        forall|k: int| m < k < e ==> s[k] != NL,
    ensures
        rfind_nl(s, e) == m,
    decreases e,
{
    if e <= 0 {
    } else if s[e - 1] == NL {
        if m < e - 1 {
            assert(s[e - 1] != NL);
        }
    } else {
        lemma_rfind_nl_unique(s, e - 1, m);
    }
}

/// A line's content with a single carriage return standing right before its
/// terminator removed.
pub open spec fn strip_cr(l: Seq<u8>) -> Seq<u8> {
    if l.len() > 0 && l[l.len() - 1] == CR {
        l.drop_last()
    } else {
        l
    }
}

/// The lines of a byte text, in forward order: the text is split on newline
/// bytes; a final byte run without a terminator still counts as a line; a
/// terminated line loses one carriage return standing right before its
/// terminator; an empty text has no lines at all.
pub open spec fn lines_of(s: Seq<u8>) -> Seq<Seq<u8>>
    decreases s.len(),
    via lines_of_decreases
{
    if s.len() == 0 {
        Seq::empty()
    } else if s[s.len() - 1] == NL {
        let j = rfind_nl(s, s.len() - 1);
        lines_of(s.take(j + 1)).push(strip_cr(s.subrange(j + 1, s.len() - 1)))
    } else {
        let j = rfind_nl(s, s.len() as int);
        lines_of(s.take(j + 1)).push(s.subrange(j + 1, s.len() as int))
    }
}

#[via_fn]
proof fn lines_of_decreases(s: Seq<u8>) {
    if s.len() > 0 {
        if s[s.len() - 1] == NL {
            lemma_rfind_nl(s, s.len() - 1);
        } else {
            lemma_rfind_nl(s, s.len() as int);
        }
    }
}

/// A fresh copy of a byte vector.
pub fn copy_bytes(v: &Vec<u8>) -> (r: Vec<u8>)
    ensures
        r@ == v@,
{
    let mut r: Vec<u8> = Vec::new();
    let mut i: usize = 0;
    while i < v.len()
        invariant
            i <= v.len(),
            r@ == v@.take(i as int),
        decreases v.len() - i,
    {
        r.push(v[i]);
        i = i + 1;
        proof {
            assert(r@ =~= v@.take(i as int));
        }
    }
    proof {
        assert(v@.take(v@.len() as int) =~= v@);
    }
    r
}

/// Appends all bytes of `src` to `dst`.
pub fn push_all(dst: &mut Vec<u8>, src: &Vec<u8>)
    ensures
        final(dst)@ == old(dst)@ + src@,
{
    let mut i: usize = 0;
    while i < src.len()
        invariant
            i <= src.len(),
            dst@ == old(dst)@ + src@.take(i as int),
        decreases src.len() - i,
    {
        dst.push(src[i]);
        i = i + 1;
        proof {
            assert(dst@ =~= old(dst)@ + src@.take(i as int));
        }
    }
    proof {
        assert(old(dst)@ + src@.take(src@.len() as int) =~= old(dst)@ + src@);
    }
}

/// The backward line scanner: yields the lines of a byte text one at a time,
/// from the last line toward the first, without being restartable. Its view is
/// the sequence of lines not yet produced, in forward order.
pub struct RevScanner {
    bytes: Vec<u8>,
    pos: usize,
}

impl View for RevScanner {
    type V = Seq<Seq<u8>>;

    closed spec fn view(&self) -> Seq<Seq<u8>> {
        lines_of(self.bytes@.take(self.pos as int))
    }
}

impl RevScanner {
    pub closed spec fn wf(self) -> bool {
        self.pos <= self.bytes@.len()
    }

    /// Starts a scan over the full text: every line is still to come.
    pub fn new(bytes: Vec<u8>) -> (r: RevScanner)
        ensures
            r.wf(),
            r@ == lines_of(bytes@),
    {
        let pos: usize = bytes.len();
        let r = RevScanner { bytes, pos };
        proof {
            assert(r.bytes@.take(pos as int) =~= r.bytes@);
        }
        r
    }

    /// Produces the latest line not yet produced, or nothing once the scan has
    /// reached the start of the text.
    pub fn next(&mut self) -> (r: Option<Vec<u8>>)
        requires
            old(self).wf(),
        ensures
            final(self).wf(),
            old(self)@.len() == 0 ==> r is None && *final(self) == *old(self),
            old(self)@.len() > 0 ==> (match r {
                Some(l) => l@ == old(self)@.last() && final(self)@ == old(self)@.drop_last(),
                None => false,
            }),
    {
        proof {
            if self.pos == 0 {
                assert(self.bytes@.take(0) =~= Seq::<u8>::empty());
            }
        }
        if self.pos == 0 {
            return None;
        }
        let ghost s = self.bytes@.take(self.pos as int);
        let terminated: bool = self.bytes[self.pos - 1] == NL;
        let e: usize = if terminated {
            self.pos - 1
        } else {
            self.pos
        };
        let mut j: usize = e;
        while j > 0 && self.bytes[j - 1] != NL
            invariant
                j <= e,
                e <= self.pos <= self.bytes@.len(),
                forall|k: int| j <= k < e ==> self.bytes@[k] != NL,
            decreases j,
        {
            j = j - 1;
        }
        proof {
            assert forall|k: int| j as int - 1 < k < e as int implies s[k] != NL by {
                assert(s[k] == self.bytes@[k]);
            }
            lemma_rfind_nl_unique(s, e as int, j as int - 1);
        }
        let mut end2: usize = e;
        if terminated && end2 > j && self.bytes[end2 - 1] == CR {
            end2 = end2 - 1;
        }
        let mut line: Vec<u8> = Vec::new();
        let mut k: usize = j;
        while k < end2
            invariant
                j <= k <= end2,
                end2 <= e <= self.pos <= self.bytes@.len(),
                line@ == self.bytes@.subrange(j as int, k as int),
            decreases end2 - k,
        {
            line.push(self.bytes[k]);
            k = k + 1;
            proof {
                assert(line@ =~= self.bytes@.subrange(j as int, k as int));
            }
        }
        proof {
            assert(s.len() == self.pos as int);
            assert(s.take(j as int) =~= self.bytes@.take(j as int));
            if terminated {
                assert(s[s.len() - 1] == NL);
                let content = s.subrange(j as int, s.len() - 1);
                assert(lines_of(s) == lines_of(s.take(j as int)).push(strip_cr(content)));
                assert(content =~= self.bytes@.subrange(j as int, e as int));
                if end2 < e {
                    assert(content.len() > 0 && content[content.len() - 1] == CR);
                    assert(line@ =~= content.drop_last());
                } else {
                    assert(content.len() == 0 || content[content.len() - 1] != CR);
                    assert(line@ =~= content);
                }
                assert(line@ == strip_cr(content));
            } else {
                assert(s[s.len() - 1] != NL);
                let content = s.subrange(j as int, s.len() as int);
                assert(lines_of(s) == lines_of(s.take(j as int)).push(content));
                assert(end2 == e);
                assert(line@ =~= content);
            }
            assert(lines_of(s).drop_last() =~= lines_of(s.take(j as int)));
        }
        self.pos = j;
        Some(line)
    }
}

} // verus!
