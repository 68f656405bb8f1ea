//! An `IEnumFORMATETC`: walks a list of formats for COM and `DoDragDrop`.
use crate::com::{FormatEtc, E_UNEXPECTED, S_FALSE, S_OK};
use vstd::prelude::*;

verus! {

/// A list of formats and the position of the next one to hand out.
pub struct EnumFormatEtc {
    pub formats: Vec<FormatEtc>,
    pub index: usize,
}

/// An enumerator seen as its formats and position.
pub struct EnumView {
    pub formats: Seq<FormatEtc>,
    pub index: nat,
}

impl View for EnumFormatEtc {
    type V = EnumView;

    open spec fn view(&self) -> EnumView {
        EnumView { formats: self.formats@, index: self.index as nat }
    }
}

impl EnumView {
    /// The position never passes the end of the list.
    pub open spec fn wf(self) -> bool {
        self.index <= self.formats.len()
    }

    /// How many of `celt` asked-for formats are handed out.
    pub open spec fn fetch_count(self, celt: nat) -> nat {
        let avail = (self.formats.len() - self.index) as nat;
        if celt > avail {
            avail
        } else {
            celt
        }
    }

    /// `Next`: the enumerator after it, its result code and the formats it hands out.
    pub open spec fn next(self, celt: nat) -> (EnumView, i32, Seq<FormatEtc>) {
        let n = self.fetch_count(celt);
        (
            EnumView { formats: self.formats, index: self.index + n },
            if n > 0 { S_OK } else { S_FALSE },
            self.formats.subrange(self.index as int, (self.index + n) as int),
        )
    }

    /// `Skip`.
    pub open spec fn skip(self, celt: nat) -> EnumView {
        EnumView { formats: self.formats, index: self.index + self.fetch_count(celt) }
    }

    /// `Reset`.
    pub open spec fn reset(self) -> EnumView {
        EnumView { formats: self.formats, index: 0 }
    }
}

/// The most formats that one call of `Next` writes to the caller's array.
pub const MAX_FETCH: usize = 256;

impl EnumFormatEtc {
    pub fn new(formats: Vec<FormatEtc>) -> (e: EnumFormatEtc)
        ensures
            e@ == (EnumView { formats: formats@, index: 0 }),
    {
        EnumFormatEtc { formats, index: 0 }
    }

    /// `Next`: hands out up to `celt` formats from the current position and
    /// moves past them; `S_OK` when it hands out any, else `S_FALSE`. The
    /// number fetched is the length of the list returned.
    pub fn next(&mut self, celt: u32) -> (r: (i32, Vec<FormatEtc>))
        requires
            old(self)@.wf(),
            old(self)@.fetch_count(celt as nat) <= MAX_FETCH,
        ensures
            final(self)@ == old(self)@.next(celt as nat).0,
            r.0 == old(self)@.next(celt as nat).1,
            r.1@ == old(self)@.next(celt as nat).2,
    {
        let n_avail = self.formats.len() - self.index;
        let n = if celt as usize > n_avail {
            n_avail
        } else {
            celt as usize
        };
        let mut out: Vec<FormatEtc> = Vec::new();
        let mut i: usize = 0;
        while i < n
            invariant
                i <= n,
                n == old(self)@.fetch_count(celt as nat),
                self@ == old(self)@,
                self@.wf(),
                self.index + n <= self.formats.len(),
                out@ == self.formats@.subrange(self.index as int, self.index + i),
            decreases n - i,
        {
            out.push(self.formats[self.index + i]);
            i = i + 1;
            assert(out@ =~= self.formats@.subrange(self.index as int, self.index + i));
        }
        if n > 0 {
            self.index = self.index + n;
            (S_OK, out)
        } else {
            (S_FALSE, out)
        }
    }

    /// `Skip`: moves past up to `celt` formats.
    pub fn skip(&mut self, celt: u32) -> (r: Result<(), i32>)
        requires
            old(self)@.wf(),
        ensures
            final(self)@ == old(self)@.skip(celt as nat),
            r == Ok::<(), i32>(()),
    {
        let n_avail = self.formats.len() - self.index;
        let n = if celt as usize > n_avail {
            n_avail
        } else {
            celt as usize
        };
        if n > 0 {
            self.index = self.index + n;
        }
        Ok(())
    }

    /// `Reset`: back to the first format.
    pub fn reset(&mut self) -> (r: Result<(), i32>)
        ensures
            final(self)@ == old(self)@.reset(),
            r == Ok::<(), i32>(()),
    {
        self.index = 0;
        Ok(())
    }

    /// `Clone`: not offered; always `E_UNEXPECTED`.
    pub fn clone_enum(&self) -> (r: Result<EnumFormatEtc, i32>)
        ensures
            r matches Err(code) && code == E_UNEXPECTED,
    {
        Err(E_UNEXPECTED)
    }
}

/// Two calls of `Next` hand out consecutive stretches of the list, in order,
/// with nothing repeated or left out between them.
pub proof fn law_next_is_contiguous(e: EnumView, a: nat, b: nat)
    requires
        e.wf(),
    ensures
        ({
            let (e1, _, first) = e.next(a);
            let (e2, _, second) = e1.next(b);
            &&& e1.wf()
            &&& e2.wf()
            &&& first + second == e.formats.subrange(e.index as int, e2.index as int)
            &&& e2.index == if e.index + a + b > e.formats.len() { e.formats.len() } else { e.index + a + b }
        }),
{
    let (e1, _, first) = e.next(a);
    let (e2, _, second) = e1.next(b);
    assert(first + second =~= e.formats.subrange(e.index as int, e2.index as int));
}

/// Skipping moves exactly as far as fetching the same number would.
pub proof fn law_skip_moves_like_next(e: EnumView, celt: nat)
    requires
        e.wf(),
    ensures
        e.skip(celt) == e.next(celt).0,
        e.skip(celt).wf(),
{
}

/// After a reset, asking for at least as many formats as there are hands out
/// the whole list, with `S_OK` unless it is empty; asking again gives `S_FALSE`.
pub proof fn law_reset_then_next_gives_all(e: EnumView, celt: nat)
    requires
        celt >= e.formats.len(),
    ensures
        e.reset().next(celt).2 == e.formats,
        e.reset().next(celt).1 == (if e.formats.len() > 0 { S_OK } else { S_FALSE }),
        e.reset().next(celt).0.next(1).1 == S_FALSE,
{
    assert(e.formats.subrange(0, e.formats.len() as int) =~= e.formats);
}


/// A call on an enumerator: `Next` or `Skip` of a count, `Reset`, `Clone`.
pub enum EnumOp {
    Next(nat),
    Skip(nat),
    Reset,
    Clone,
}

impl EnumView {
    /// The enumerator after a call (`Clone` leaves it as it is).
    pub open spec fn apply(self, op: EnumOp) -> EnumView {
        match op {
            EnumOp::Next(n) => self.next(n).0,
            EnumOp::Skip(n) => self.skip(n),
            EnumOp::Reset => self.reset(),
            EnumOp::Clone => self,
        }
    }

    /// The enumerator after a run of calls.
    pub open spec fn apply_all(self, ops: Seq<EnumOp>) -> EnumView
        decreases ops.len(),
    {
        if ops.len() == 0 {
            self
        } else {
            self.apply(ops[0]).apply_all(ops.drop_first())
        }
    }
}

/// Whatever calls an enumerator gets, its list of formats stays the same
/// and its position never passes the end of the list.
pub proof fn law_calls_keep_enumerator_wf(e: EnumView, ops: Seq<EnumOp>)
    requires
        e.wf(),
    ensures
        e.apply_all(ops).wf(),
        e.apply_all(ops).formats == e.formats,
    decreases ops.len(),
{
    if ops.len() > 0 {
        law_calls_keep_enumerator_wf(e.apply(ops[0]), ops.drop_first());
    }
}

/// After any calls, a `Reset` starts the enumeration over: asking then for
/// as many formats as there are gives `S_OK` and the whole list, in order.
pub proof fn law_reset_starts_over(e: EnumView, ops: Seq<EnumOp>)
    requires
        e.wf(),
        e.formats.len() > 0,
    ensures
        e.apply_all(ops).reset().index == 0,
        e.apply_all(ops).reset().next(e.formats.len()).1 == S_OK,
        e.apply_all(ops).reset().next(e.formats.len()).2 == e.formats,
        e.apply_all(ops).reset().next(e.formats.len()).0.index == e.formats.len(),
{
    law_calls_keep_enumerator_wf(e, ops);
    law_reset_then_next_gives_all(e.apply_all(ops), e.formats.len());
}

} // verus!
