//! The buffer of a reader that reads the device in whole sectors: what it holds, where reads
//! start in it, and how seeks move within it or past it.  The device itself is read by the
//! caller, which fills the buffer.
use vstd::prelude::*;

use crate::definitions::EINVAL;

verus! {

/// A buffer of whole sectors read from the device, and the position of the next byte to
/// read in it.
#[derive(Debug)]
pub struct BlockBuf {
    pub block: Vec<u8>,
    pub idx: usize,
    /// The absolute minimum that we can read in any operation
    pub sectorsize: usize,
}

/// `bufsize` rounded up to a multiple of `sectorsize`, a power of two.
pub open spec fn spec_round_bufsize(bufsize: int, sectorsize: int) -> int {
    let rem = bufsize % sectorsize;
    if rem > 0 {
        bufsize + sectorsize - rem
    } else {
        bufsize
    }
}

impl BlockBuf {
    /// The position is within the buffer.
    pub open spec fn wf(&self) -> bool {
        self.idx <= self.block@.len()
    }

    /// An empty buffer of one sector: the next read refills it.
    pub fn new(sectorsize: usize) -> (r: BlockBuf)
        ensures
            r.wf(),
            r.block@.len() == sectorsize,
            r.idx == sectorsize,
            r.sectorsize == sectorsize,
    {
        BlockBuf { block: vec![0u8; sectorsize], idx: sectorsize, sectorsize }
    }

    /// The current size of the buffer
    pub fn bufsize(&self) -> (r: usize)
        ensures
            r == self.block@.len(),
    {
        self.block.len()
    }

    /// The number of bytes read into the buffer and not yet consumed.
    pub fn buffered(&self) -> (r: usize)
        requires
            self.wf(),
        ensures
            r == self.block@.len() - self.idx,
    {
        self.block.len() - self.idx
    }

    /// Change the buffer's size, rounded up to a multiple of the sector size.  The buffer is
    /// then empty until the next absolute seek.
    pub fn set_bufsize(&mut self, bufsize: usize)
        requires
            old(self).sectorsize > 0,
            bufsize + old(self).sectorsize <= usize::MAX,
        ensures
            final(self).wf(),
            final(self).block@.len() == spec_round_bufsize(bufsize as int, old(self).sectorsize as int),
            (final(self).block@.len() as int) % (old(self).sectorsize as int) == 0,
            bufsize <= final(self).block@.len() < bufsize + old(self).sectorsize,
            final(self).idx == final(self).block@.len(),
            final(self).sectorsize == old(self).sectorsize,
    {
        let remainder: usize = bufsize % self.sectorsize;
        proof {
            let ss = self.sectorsize as int;
            vstd::arithmetic::div_mod::lemma_fundamental_div_mod(bufsize as int, ss);
            vstd::arithmetic::div_mod::lemma_mod_pos_bound(bufsize as int, ss);
            let q = bufsize as int / ss;
            if remainder > 0 {
                assert(bufsize + ss - remainder == (q + 1) * ss) by (nonlinear_arith)
                    requires
                        bufsize as int == ss * q + remainder,
                ;
                vstd::arithmetic::div_mod::lemma_mod_multiples_basic(q + 1, ss);
            } else {
                assert(bufsize as int == q * ss) by (nonlinear_arith)
                    requires
                        bufsize as int == ss * q + remainder,
                        remainder == 0,
                ;
                vstd::arithmetic::div_mod::lemma_mod_multiples_basic(q, ss);
            }
        }
        let bufsize: usize = if remainder > 0 {
            bufsize + self.sectorsize - remainder
        } else {
            bufsize
        };
        self.block.resize(bufsize, 0u8);
        self.idx = bufsize;
    }

    /// Take the bytes that were read from the device to refill the buffer, which are as many as
    /// it holds; reading restarts at its beginning.
    pub fn refill(&mut self, data: Vec<u8>)
        requires
            data@.len() == old(self).block@.len(),
        ensures
            final(self).wf(),
            final(self).block@ == data@,
            final(self).idx == 0,
            final(self).sectorsize == old(self).sectorsize,
    {
        self.block = data;
        self.idx = 0;
    }

    /// Read up to `n` bytes from the buffer: as many as are buffered.
    pub fn read(&mut self, n: usize) -> (r: Vec<u8>)
        requires
            old(self).wf(),
        ensures
            final(self).wf(),
            r@.len() == if n < old(self).block@.len() - old(self).idx {
                n as int
            } else {
                old(self).block@.len() - old(self).idx
            },
            r@ == old(self).block@.subrange(old(self).idx as int, old(self).idx + r@.len()),
            final(self).block == old(self).block,
            final(self).idx == old(self).idx + r@.len(),
            final(self).sectorsize == old(self).sectorsize,
    {
        let avail: usize = self.block.len() - self.idx;
        let num: usize = if n < avail {
            n
        } else {
            avail
        };
        let out = vstd::slice::slice_to_vec(
            vstd::slice::slice_subrange(self.block.as_slice(), self.idx, self.idx + num),
        );
        self.idx = self.idx + num;
        out
    }

    /// Skip `amt` buffered bytes.
    pub fn consume(&mut self, amt: usize)
        requires
            old(self).wf(),
            amt <= old(self).block@.len() - old(self).idx,
        ensures
            final(self).wf(),
            final(self).block == old(self).block,
            final(self).idx == old(self).idx + amt,
            final(self).sectorsize == old(self).sectorsize,
    {
        let len: usize = self.block.len();
        self.idx = self.idx + amt;
    }

    /// The next `n` buffered bytes, if that many are buffered.
    pub fn peek_read(&self, n: usize) -> (r: Option<&[u8]>)
        requires
            self.wf(),
        ensures
            n <= self.block@.len() - self.idx ==> (r matches Some(s) && s@ == self.block@.subrange(
                self.idx as int,
                self.idx + n,
            )),
            n > self.block@.len() - self.idx ==> r is None,
    {
        if n <= self.block.len() - self.idx {
            Some(vstd::slice::slice_subrange(self.block.as_slice(), self.idx, self.idx + n))
        } else {
            None
        }
    }
}

/// Where an absolute seek to `pos` goes, for a buffer of `bs` bytes: the device is read from
/// the start of the buffer-sized block that holds `pos`, and reading resumes `pos` minus that
/// start into the buffer.
pub fn seek_start_plan(pos: u64, bs: u64) -> (r: (u64, u64))
    requires
        bs > 0,
    ensures
        r.0 == pos / bs * bs,
        r.1 == pos % bs,
        r.0 + r.1 == pos,
        r.1 < bs,
{
    assert(pos / bs * bs <= pos && pos - pos / bs * bs == pos % bs) by (nonlinear_arith)
        requires
            bs > 0,
    {
        vstd::arithmetic::div_mod::lemma_fundamental_div_mod(pos as int, bs as int);
        vstd::arithmetic::div_mod::lemma_mod_pos_bound(pos as int, bs as int);
    }
    let aligned: u64 = pos / bs * bs;
    (aligned, pos - aligned)
}

/// Where a seek relative to the current position goes.
#[derive(Debug, Clone, Copy, PartialEq, Eq, Structural)]
pub enum SeekCurrent {
    /// Within what is buffered: the new position in the buffer, and on the device.
    InBuffer(usize, u64),
    /// Before the start of the device.
    Error(i32),
    /// Elsewhere: seek to this absolute position.
    Absolute(u64),
}

/// A seek by `offset` from the current position, when the device has been read up to `pos`
/// into a buffer of `block_len` bytes of which `idx` have been consumed.
pub fn seek_current_plan(pos: u64, block_len: usize, idx: usize, offset: i64) -> (r: SeekCurrent)
    requires
        idx <= block_len <= pos,
        block_len <= i64::MAX,
        pos <= i64::MAX,
    ensures
        ({
            let cur = pos - block_len + idx;
            let newidx = offset + idx;
            if 0 <= newidx < block_len {
                r == SeekCurrent::InBuffer(newidx as usize, (pos - block_len + newidx) as u64)
            } else if cur + offset < 0 {
                r == SeekCurrent::Error(EINVAL)
            } else {
                r == SeekCurrent::Absolute((cur + offset) as u64)
            }
        }),
{
    let cur: u64 = pos - block_len as u64 + idx as u64;
    let newidx: i128 = offset as i128 + idx as i128;
    if newidx >= 0 && newidx < block_len as i128 {
        SeekCurrent::InBuffer(newidx as usize, ((pos - block_len as u64) as i128 + newidx) as u64)
    } else if (cur as i128) + (offset as i128) < 0 {
        SeekCurrent::Error(EINVAL)
    } else {
        SeekCurrent::Absolute(((cur as i128) + (offset as i128)) as u64)
    }
}

/// A relative seek that succeeds lands `offset` bytes from the current position, whether it
/// stays in the buffer or goes to the device.
pub proof fn lemma_seek_current_lands(pos: u64, block_len: usize, idx: usize, offset: i64, r: SeekCurrent)
    requires
        idx <= block_len <= pos,
        pos <= i64::MAX,
        ({
            let cur = pos - block_len + idx;
            let newidx = offset + idx;
            if 0 <= newidx < block_len {
                r == SeekCurrent::InBuffer(newidx as usize, (pos - block_len + newidx) as u64)
            } else if cur + offset < 0 {
                r == SeekCurrent::Error(EINVAL)
            } else {
                r == SeekCurrent::Absolute((cur + offset) as u64)
            }
        }),
    ensures
        r matches SeekCurrent::InBuffer(_, p) ==> p == pos - block_len + idx + offset,
        r matches SeekCurrent::Absolute(p) ==> p == pos - block_len + idx + offset,
        r matches SeekCurrent::Error(e) ==> e == EINVAL && pos - block_len + idx + offset < 0,
{
}

} // verus!
