use vstd::prelude::*;

verus! {

/// Size of the console buffer; a write that fills it ships it at once.
pub const STDOUT_BUFFER_SIZE: usize = 64;

/// LF bytes expanded to CRLF, everything else kept as it is.
pub open spec fn crlf_of(s: Seq<u8>) -> Seq<u8>
    decreases s.len(),
{
    if s.len() == 0 {
        Seq::empty()
    } else {
        crlf_of(s.drop_last()) + (if s.last() == 10u8 {
            seq![13u8, 10u8]
        } else {
            seq![s.last()]
        })
    }
}

/// Expand each LF to CRLF.
pub fn lf_to_crlf(s: &[u8]) -> (r: Vec<u8>)
    ensures
        r@ == crlf_of(s@),
{
    let n = s.len();
    let mut r: Vec<u8> = Vec::new();
    let mut i: usize = 0;
    while i < n
        invariant
            0 <= i <= n,
            n == s@.len(),
            r@ == crlf_of(s@.take(i as int)),
        decreases n - i,
    {
        let b = s[i];
        if b == 10u8 {
            r.push(13u8);
        }
        r.push(b);
        i += 1;
        proof {
            assert(s@.take(i as int).drop_last() =~= s@.take(i as int - 1));
            assert(s@.take(i as int).last() == s@[i as int - 1]);
        }
    }
    proof {
        assert(s@.take(n as int) =~= s@);
    }
    r
}

/// Buffered console sink.
///
/// The core fills a bounded buffer and decides when its contents ship;
/// the native layer owns the routine that actually prints what shipped.
/// Text is normalised to CRLF line endings on the way in, as serial
/// consoles expect.
pub struct Stdout {
    buffer: Vec<u8>,
    sink: Vec<u8>,
}

impl Stdout {
    /// The buffer never reaches the shipping threshold between calls.
    #[verifier::type_invariant]
    spec fn wf(&self) -> bool {
        self.buffer@.len() < STDOUT_BUFFER_SIZE
    }

    /// Bytes already shipped to the native print routine, in order.
    pub closed spec fn shipped(&self) -> Seq<u8> {
        self.sink@
    }

    /// Bytes written but not shipped yet.
    pub closed spec fn buffered(&self) -> Seq<u8> {
        self.buffer@
    }

    /// Everything written so far: what shipped, then what still sits in
    /// the buffer.
    pub open spec fn written(&self) -> Seq<u8> {
        self.shipped() + self.buffered()
    }

    /// Append one byte; a buffer that reaches the threshold ships
    /// whole.
    pub fn write_byte(&mut self, b: u8)
        ensures
            final(self).written() == old(self).written().push(b),
            final(self).shipped().len() >= old(self).shipped().len(),
    {
        proof {
            use_type_invariant(&*self);
        }
        let mut buf: Vec<u8> = Vec::new();
        std::mem::swap(&mut buf, &mut self.buffer);
        buf.push(b);
        if buf.len() >= STDOUT_BUFFER_SIZE {
            let mut out: Vec<u8> = Vec::new();
            std::mem::swap(&mut out, &mut self.sink);
            out.append(&mut buf);
            self.sink = out;
        }
        self.buffer = buf;
        proof {
            assert(final(self).written() =~= old(self).written().push(b));
        }
    }

    /// Ship whatever sits in the buffer, if anything.
    pub fn flush(&mut self)
        ensures
            final(self).written() == old(self).written(),
            final(self).shipped() == old(self).written(),
            final(self).buffered().len() == 0,
    {
        proof {
            use_type_invariant(&*self);
        }
        let mut buf: Vec<u8> = Vec::new();
        std::mem::swap(&mut buf, &mut self.buffer);
        if buf.len() > 0 {
            let mut out: Vec<u8> = Vec::new();
            std::mem::swap(&mut out, &mut self.sink);
            out.append(&mut buf);
            self.sink = out;
        }
        self.buffer = buf;
        proof {
            assert(final(self).written() =~= old(self).written());
            assert(final(self).shipped() =~= old(self).written());
        }
    }

    /// Write a whole byte string, LF expanded to CRLF, and ship it.
    pub fn write_bytes(&mut self, s: &[u8])
        ensures
            final(self).written() == old(self).written() + crlf_of(s@),
            final(self).shipped() == final(self).written(),
            final(self).buffered().len() == 0,
    {
        let expanded = lf_to_crlf(s);
        let n = expanded.len();
        let mut i: usize = 0;
        while i < n
            invariant
                0 <= i <= n,
                n == expanded@.len(),
                self.written() == old(self).written() + expanded@.take(i as int),
            decreases n - i,
        {
            self.write_byte(expanded[i]);
            i += 1;
            proof {
                assert(old(self).written() + expanded@.take(i as int) =~= (old(self).written()
                    + expanded@.take(i as int - 1)).push(expanded@[i as int - 1]));
            }
        }
        proof {
            assert(expanded@.take(n as int) =~= expanded@);
        }
        self.flush();
    }

    /// Hand the shipped bytes to the native print routine and forget
    /// them.
    pub fn drain_shipped(&mut self) -> (out: Vec<u8>)
        ensures
            out@ == old(self).shipped(),
            final(self).shipped().len() == 0,
            final(self).buffered() == old(self).buffered(),
    {
        proof {
            use_type_invariant(&*self);
        }
        let mut out: Vec<u8> = Vec::new();
        std::mem::swap(&mut out, &mut self.sink);
        out
    }
}

/// A fresh console sink with nothing written.
pub fn stdout() -> (s: Stdout)
    ensures
        s.written() =~= Seq::<u8>::empty(),
        s.shipped() =~= Seq::<u8>::empty(),
{
    Stdout { buffer: Vec::new(), sink: Vec::new() }
}

} // verus!
