//! Seeks of a sector-buffered reader, over a simulated device of 1 MiB read in 4096-byte
//! buffers.  `real` is where the device has been read up to; `idx` the position in the buffer.

use xfs_fuse::block_reader::{seek_current_plan, seek_start_plan, BlockBuf, SeekCurrent};
use xfs_fuse::definitions::EINVAL;

const FSIZE: u64 = 1 << 20;

struct Sim {
    buf:  BlockBuf,
    real: u64,
}

impl Sim {
    fn harness() -> Sim {
        let buf = BlockBuf::new(4096);
        assert!(FSIZE > 2 * buf.bufsize() as u64);
        Sim { buf, real: 0 }
    }

    fn bufsize(&self) -> usize {
        self.buf.bufsize()
    }

    /// An absolute seek: read the buffer-sized block that holds `pos`, and position within it.
    fn seek_start(&mut self, pos: u64) {
        let bs = self.bufsize() as u64;
        let (aligned, rem) = seek_start_plan(pos, bs);
        let data: Vec<u8> = (aligned..aligned + bs).map(|x| x as u8).collect();
        self.buf.refill(data);
        self.real = aligned + bs;
        self.buf.consume(rem as usize);
    }

    fn seek_current(&mut self, offset: i64) -> Result<(), i32> {
        match seek_current_plan(self.real, self.buf.block.len(), self.buf.idx, offset) {
            SeekCurrent::InBuffer(idx, _) => {
                self.buf.idx = idx;
                Ok(())
            }
            SeekCurrent::Error(e) => Err(e),
            SeekCurrent::Absolute(pos) => {
                self.seek_start(pos);
                Ok(())
            }
        }
    }
}

/// Seeking to the current position should be a no-op.
#[test]
fn current_0() {
    let mut br = Sim::harness();
    let bs = br.bufsize();
    let pos = bs + (bs >> 2);
    br.seek_start(pos as u64);
    let idx = br.buf.idx;
    let real_pos = br.real;

    br.seek_current(0).unwrap();
    assert_eq!(real_pos, br.real);
    assert_eq!(idx, br.buf.idx);
}

/// Seek to a negative offset from current
#[test]
fn current_neg() {
    let mut br = Sim::harness();
    let bs = br.bufsize();
    let initial = bs + (bs >> 2);
    br.seek_start(initial as u64);
    let idx = br.buf.idx as u64;
    let real_pos = br.real;

    br.seek_current(-1).unwrap();
    assert_eq!(real_pos + idx - 1, br.real + br.buf.idx as u64);
}

/// Seek to a negative absolute offset from current
#[test]
fn current_neg_neg() {
    let mut br = Sim::harness();
    let bs = br.bufsize();
    let initial = bs + (bs >> 2);
    br.seek_start(initial as u64);

    let e = br.seek_current(-2 * initial as i64).unwrap_err();
    assert_eq!(EINVAL, e);
}

/// Seek to a small positive offset from current, within the current block
#[test]
fn current_pos_incr() {
    let mut br = Sim::harness();
    let bs = br.bufsize();
    let initial = bs + (bs >> 2);
    br.seek_start(initial as u64);
    let idx = br.buf.idx as u64;
    let real_pos = br.real;

    br.seek_current(1).unwrap();
    assert_eq!(real_pos + idx + 1, br.real + br.buf.idx as u64);
}

/// Seek to a large positive offset from current
#[test]
fn current_pos_large() {
    let mut br = Sim::harness();
    let bs = br.bufsize();
    let initial = bs + (bs >> 2);
    br.seek_start(initial as u64);
    let idx = br.buf.idx as u64;
    let real_pos = br.real;

    br.seek_current(bs as i64).unwrap();
    assert_eq!(real_pos + idx + bs as u64, br.real + br.buf.idx as u64);
}
