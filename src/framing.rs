//! Line framing: each message travels as one line of JSON text ended by a
//! newline.
use vstd::prelude::*;

verus! {

/// The newline byte that ends each frame.
pub const NEWLINE: u8 = 10;

/// The frame of a message body: the body, then a newline.
pub fn frame(body: &Vec<u8>) -> (r: Vec<u8>)
    ensures
        r@ == body@.push(NEWLINE),
{
    let mut out: Vec<u8> = Vec::new();
    let mut i: usize = 0;
    while i < body.len()
        invariant
            i <= body@.len(),
            out@ == body@.take(i as int),
        decreases body.len() - i,
    {
        out.push(body[i]);
        i += 1;
        proof {
            assert(out@ =~= body@.take(i as int));
        }
    }
    out.push(NEWLINE);
    proof {
        assert(body@.take(body@.len() as int) =~= body@);
    }
    out
}

/// The position of the first newline, or -1.
pub open spec fn first_newline(s: Seq<u8>) -> int
    decreases s.len(),
{
    if s.len() == 0 {
        -1
    } else if s[0] == NEWLINE {
        0
    } else {
        let r = first_newline(s.drop_first());
        if r < 0 {
            -1
        } else {
            r + 1
        }
    }
}

/// Bytes read from a connection that have not yet been taken out as lines.
pub struct LineBuffer {
    pending: Vec<u8>,
}

impl LineBuffer {
    /// The bytes waiting.
    pub closed spec fn view(&self) -> Seq<u8> {
        self.pending@
    }

    pub fn new() -> (r: LineBuffer)
        ensures
            r.view().len() == 0,
    {
        LineBuffer { pending: Vec::new() }
    }

    /// Adds bytes read from the connection.
    pub fn push_bytes(&mut self, data: &[u8])
        ensures
            final(self).view() == old(self).view() + data@,
    {
        let ghost start = self.pending@;
        let mut i: usize = 0;
        while i < data.len()
            invariant
                i <= data@.len(),
                start == old(self).view(),
                self.pending@ == start + data@.take(i as int),
            decreases data.len() - i,
        {
            self.pending.push(data[i]);
            i += 1;
            proof {
                assert(self.pending@ =~= start + data@.take(i as int));
            }
        }
        proof {
            assert(data@.take(data@.len() as int) =~= data@);
        }
    }

    /// Takes out the first complete line, without its newline, if one has
    /// arrived.
    pub fn pop_line(&mut self) -> (r: Option<Vec<u8>>)
        ensures
            ({
                let k = first_newline(old(self).view());
                if k < 0 {
                    r is None && final(self).view() == old(self).view()
                } else {
                    r is Some && r->0@ == old(self).view().take(k) && final(self).view()
                        == old(self).view().skip(k + 1)
                }
            }),
    {
        let ghost s = self.pending@;
        proof {
            assert(s.skip(0) =~= s);
        }
        let mut i: usize = 0;
        while i < self.pending.len()
            invariant
                i <= s.len(),
                s == self.pending@,
                s == old(self).view(),
                first_newline(s) == (if first_newline(s.skip(i as int)) < 0 {
                    -1
                } else {
                    first_newline(s.skip(i as int)) + i
                }),
            decreases self.pending.len() - i,
        {
            proof {
                assert(s.skip(i as int).drop_first() =~= s.skip(i + 1));
            }
            if self.pending[i] == NEWLINE {
                let mut line: Vec<u8> = Vec::new();
                let mut j: usize = 0;
                while j < i
                    invariant
                        j <= i,
                        i < s.len(),
                        s == self.pending@,
                        line@ == s.take(j as int),
                    decreases i - j,
                {
                    line.push(self.pending[j]);
                    j += 1;
                    proof {
                        assert(line@ =~= s.take(j as int));
                    }
                }
                let mut rest: Vec<u8> = Vec::new();
                let mut k: usize = i + 1;
                while k < self.pending.len()
                    invariant
                        i + 1 <= k <= s.len(),
                        s == self.pending@,
                        rest@ == s.subrange(i + 1, k as int),
                    decreases self.pending.len() - k,
                {
                    rest.push(self.pending[k]);
                    k += 1;
                    proof {
                        assert(rest@ =~= s.subrange(i + 1, k as int));
                    }
                }
                proof {
                    assert(s.subrange(i + 1, s.len() as int) =~= s.skip(i + 1));
                }
                self.pending = rest;
                return Some(line);
            }
            i += 1;
        }
        proof {
            assert(s.skip(i as int).len() == 0);
        }
        None
    }
}

} // verus!
