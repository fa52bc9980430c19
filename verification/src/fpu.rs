use vstd::prelude::*;

verus! {

/// CR0 with the FPU enabled: EM (bit 2, emulation) cleared and MP (bit 1, monitor
/// co-processor) set; every other bit as read.
pub fn cr0_value(cr0: usize) -> (r: usize)
    ensures
        r == (cr0 & !4usize) | 2usize,
{
    let mut t = cr0;
    t = t & !(1usize << 2usize);
    t = t | (1usize << 1usize);
    assert(t == (cr0 & !4usize) | 2usize) by (bit_vector)
        requires
            t == (cr0 & !(1usize << 2usize)) | (1usize << 1usize),
    ;
    t
}

/// CR4 with SSE enabled: OSFXSR (bit 9) and OSXMMEXCPT (bit 10) set; every other bit as read.
pub fn cr4_value(cr4: usize) -> (r: usize)
    ensures
        r == cr4 | 0x600usize,
{
    let t = cr4 | (3usize << 9usize);
    assert(t == cr4 | 0x600usize) by (bit_vector)
        requires
            t == cr4 | (3usize << 9usize),
    ;
    t
}

/// The FPU setup keeps EM clear and MP set, and changes no other bit of CR0.
pub proof fn lemma_cr0_bits(cr0: usize)
    ensures
        ((cr0 & !4usize) | 2usize) & 4usize == 0,
        ((cr0 & !4usize) | 2usize) & 2usize == 2usize,
        ((cr0 & !4usize) | 2usize) & !6usize == cr0 & !6usize,
{
    assert(((cr0 & !4usize) | 2usize) & 4usize == 0) by (bit_vector);
    assert(((cr0 & !4usize) | 2usize) & 2usize == 2usize) by (bit_vector);
    assert(((cr0 & !4usize) | 2usize) & !6usize == cr0 & !6usize) by (bit_vector);
}

} // verus!
