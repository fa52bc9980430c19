use vstd::prelude::*;

verus! {

/// Attribute byte of every character cell: light cyan on black.
pub const ATTRIBUTE: u8 = 0xb;

/// One byte to store into text-mode video memory, at a byte offset from its start.
#[derive(Clone, Copy, Debug, PartialEq, Eq, Structural)]
pub struct CellWrite {
    pub offset: isize,
    pub value: u8,
}

/// The two stores that put `ch` into cell `pos`: the character byte, then its attribute.
pub open spec fn cell_writes(pos: int, ch: u8) -> Seq<CellWrite> {
    seq![
        CellWrite { offset: (pos * 2) as isize, value: ch },
        CellWrite { offset: (pos * 2 + 1) as isize, value: ATTRIBUTE },
    ]
}

/// The two stores that blank cell `pos`: its attribute, then a space.
pub open spec fn blank_writes(pos: int) -> Seq<CellWrite> {
    seq![
        CellWrite { offset: (pos * 2 + 1) as isize, value: ATTRIBUTE },
        CellWrite { offset: (pos * 2) as isize, value: 0x20 },
    ]
}

/// The stores that writing `buf` from cell `pos + 1` on makes, byte after byte.
pub open spec fn text_writes(pos: int, buf: Seq<u8>) -> Seq<CellWrite>
    decreases buf.len(),
{
    if buf.len() == 0 {
        Seq::empty()
    } else {
        text_writes(pos, buf.drop_last()) + cell_writes(pos + buf.len(), buf.last())
    }
}

/// Cursor positions whose cell offsets fit in an `isize`.
pub open spec fn pos_ok(pos: int) -> bool {
    isize::MIN <= pos * 2 && pos * 2 + 1 <= isize::MAX
}

/// The 80x25 text console: a cursor that advances before each character, and a queue of
/// stores to video memory that the driver takes with `take_writes`.
pub struct Screen {
    pos: isize,
    writes: Vec<CellWrite>,
}

impl Screen {
    pub closed spec fn pos(&self) -> int {
        self.pos as int
    }

    pub closed spec fn pending(&self) -> Seq<CellWrite> {
        self.writes@
    }

    /// A console with its cursor at cell 0 and nothing to store.
    pub fn new() -> (s: Self)
        ensures
            s.pos() == 0,
            s.pending() == Seq::<CellWrite>::empty(),
    {
        Self { pos: 0, writes: Vec::new() }
    }

    /// Blanks the cell under the cursor and moves the cursor back one cell.
    pub fn pop(&mut self)
        requires
            pos_ok(old(self).pos()),
            old(self).pos() - 1 >= isize::MIN,
        ensures
            final(self).pos() == old(self).pos() - 1,
            final(self).pending() == old(self).pending() + blank_writes(old(self).pos()),
    {
        let p = self.pos;
        self.writes.push(CellWrite { offset: p * 2 + 1, value: ATTRIBUTE });
        self.writes.push(CellWrite { offset: p * 2, value: 0x20 });
        self.pos = self.pos - 1;
        assert(self.writes@ =~= old(self).writes@ + blank_writes(p as int));
    }

    /// Writes every byte of `buf`, in order.
    pub fn write(&mut self, buf: &[u8])
        requires
            buf@.len() > 0 ==> pos_ok(old(self).pos() + 1) && pos_ok(old(self).pos() + buf@.len()),
        ensures
            final(self).pos() == old(self).pos() + buf@.len(),
            final(self).pending() == old(self).pending() + text_writes(old(self).pos(), buf@),
    {
        let ghost p0 = self.pos();
        let ghost w0 = self.pending();
        let mut i: usize = 0;
        while i < buf.len()
            invariant
                p0 == old(self).pos(),
                w0 == old(self).pending(),
                buf@.len() > 0 ==> pos_ok(p0 + 1) && pos_ok(p0 + buf@.len()),
                i <= buf@.len(),
                self.pos() == p0 + i,
                self.pending() == w0 + text_writes(p0, buf@.take(i as int)),
            decreases buf@.len() - i,
        {
            self.write_byte(buf[i]);
            proof {
                let t = buf@.take(i + 1);
                assert(t.drop_last() =~= buf@.take(i as int));
                assert(t.last() == buf@[i as int]);
                assert(w0 + text_writes(p0, t) =~= w0 + text_writes(p0, buf@.take(i as int))
                    + cell_writes(p0 + i + 1, buf@[i as int]));
            }
            i = i + 1;
        }
        assert(buf@.take(i as int) =~= buf@);
    }

    /// Advances the cursor one cell and puts `byte` there.
    pub fn write_byte(&mut self, byte: u8)
        requires
            pos_ok(old(self).pos() + 1),
        ensures
            final(self).pos() == old(self).pos() + 1,
            final(self).pending() == old(self).pending() + cell_writes(old(self).pos() + 1, byte),
    {
        self.pos = self.pos + 1;
        let p = self.pos;
        self.writes.push(CellWrite { offset: p * 2, value: byte });
        self.writes.push(CellWrite { offset: p * 2 + 1, value: ATTRIBUTE });
        assert(self.writes@ =~= old(self).writes@ + cell_writes(p as int, byte));
    }

    /// The cursor's cell.
    pub fn position(&self) -> (p: isize)
        ensures
            p == self.pos(),
    {
        self.pos
    }

    /// Hands the queued stores to the driver, oldest first, and empties the queue.
    pub fn take_writes(&mut self) -> (ws: Vec<CellWrite>)
        ensures
            ws@ == old(self).pending(),
            final(self).pending() == Seq::<CellWrite>::empty(),
            final(self).pos() == old(self).pos(),
    {
        let mut ws: Vec<CellWrite> = Vec::new();
        std::mem::swap(&mut ws, &mut self.writes);
        ws
    }
}

/// Erasing right after writing a byte blanks exactly the two bytes that the write stored
/// (the cursor goes back by the one cell it advanced).
pub proof fn lemma_pop_undoes_write_byte(pos: int, ch: u8)
    ensures
        blank_writes(pos + 1)[1].offset == cell_writes(pos + 1, ch)[0].offset,
        blank_writes(pos + 1)[0].offset == cell_writes(pos + 1, ch)[1].offset,
{
}

/// Writing `buf` from cursor `pos` stores, for each byte `i`, the byte at offset
/// `2 * (pos + i + 1)` and the attribute 0xB right after it, and nothing else.
pub proof fn lemma_text_writes_cells(pos: int, buf: Seq<u8>)
    ensures
        text_writes(pos, buf).len() == 2 * buf.len(),
        forall|i: int| 0 <= i < buf.len() ==> #[trigger] text_writes(pos, buf)[2 * i] == (CellWrite {
            offset: (2 * (pos + i + 1)) as isize,
            value: buf[i],
        }),
        forall|i: int| 0 <= i < buf.len() ==> #[trigger] text_writes(pos, buf)[2 * i + 1] == (CellWrite {
            offset: (2 * (pos + i + 1) + 1) as isize,
            value: ATTRIBUTE,
        }),
    decreases buf.len(),
{
    if buf.len() > 0 {
        let init = buf.drop_last();
        let n = init.len() as int;
        lemma_text_writes_cells(pos, init);
        let t = text_writes(pos, buf);
        let last = cell_writes(pos + buf.len(), buf.last());
        assert(t == text_writes(pos, init) + last);
        assert(t[2 * n] == last[0]);
        assert(t[2 * n + 1] == last[1]);
        assert(pos + buf.len() == pos + n + 1);
        assert(t[2 * n] == (CellWrite { offset: (2 * (pos + n + 1)) as isize, value: buf[n] }));
        assert(t[2 * n + 1] == (CellWrite { offset: (2 * (pos + n + 1) + 1) as isize, value: ATTRIBUTE }));
        assert forall|i: int| 0 <= i < buf.len() implies #[trigger] t[2 * i] == (CellWrite {
            offset: (2 * (pos + i + 1)) as isize,
            value: buf[i],
        }) by {
            if i < n {
                assert(t[2 * i] == text_writes(pos, init)[2 * i]);
            }
        }
        assert forall|i: int| 0 <= i < buf.len() implies #[trigger] t[2 * i + 1] == (CellWrite {
            offset: (2 * (pos + i + 1) + 1) as isize,
            value: ATTRIBUTE,
        }) by {
            if i < n {
                assert(t[2 * i + 1] == text_writes(pos, init)[2 * i + 1]);
            }
        }
    }
}

} // verus!
