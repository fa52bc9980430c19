use vstd::prelude::*;
use vstd::bytes::{spec_u32_to_le_bytes, u32_to_le_bytes};
use vstd::utf8::valid_utf8;

verus! {

/// First of the three CPUID leaves that hold the processor brand string.
pub const BRAND_FIRST_LEAF: u32 = 0x8000_0002;

/// Last of the three CPUID leaves that hold the processor brand string.
pub const BRAND_LAST_LEAF: u32 = 0x8000_0004;

/// The four registers that one CPUID leaf returns.
#[derive(Clone, Copy, Debug, PartialEq, Eq, Structural)]
pub struct CpuidResult {
    pub eax: u32,
    pub ebx: u32,
    pub ecx: u32,
    pub edx: u32,
}

/// The UTF-8 bytes of the `String` that `String::from_utf8_lossy` makes of `bytes`.
pub uninterp spec fn utf8_lossy(bytes: Seq<u8>) -> Seq<u8>;

/// `String::from_utf8_lossy` of std, turned into the bytes of the owned string. Its
/// documentation: valid UTF-8 comes back unchanged; each invalid sequence becomes U+FFFD.
/// The contract names the result and states the first fact; how invalid input is replaced
/// is left unsaid.
#[verifier::external_body]
fn from_utf8_lossy(bytes: &[u8]) -> (r: Vec<u8>)
    ensures
        r@ == utf8_lossy(bytes@),
        valid_utf8(bytes@) ==> r@ == bytes@,
{
    String::from_utf8_lossy(bytes).into_owned().into_bytes()
}

/// The text of one register: its four bytes, least significant first, read as UTF-8.
pub open spec fn register_text(r: u32) -> Seq<u8> {
    utf8_lossy(spec_u32_to_le_bytes(r))
}

/// The text of one leaf: its registers in the order EAX, EBX, ECX, EDX.
pub open spec fn leaf_text(c: CpuidResult) -> Seq<u8> {
    register_text(c.eax) + register_text(c.ebx) + register_text(c.ecx) + register_text(c.edx)
}

/// The brand string of a list of leaves, leaf after leaf.
pub open spec fn brand_text(leaves: Seq<CpuidResult>) -> Seq<u8>
    decreases leaves.len(),
{
    if leaves.len() == 0 {
        Seq::empty()
    } else {
        brand_text(leaves.drop_last()) + leaf_text(leaves.last())
    }
}

/// Appends the converted text of one register to the brand string built so far.
pub fn append_text(out: &mut Vec<u8>, text: &[u8])
    ensures
        final(out)@ == old(out)@ + text@,
{
    let mut i: usize = 0;
    while i < text.len()
        invariant
            i <= text@.len(),
            out@ == old(out)@ + text@.take(i as int),
        decreases text@.len() - i,
    {
        out.push(text[i]);
        assert(out@ =~= old(out)@ + text@.take(i + 1));
        i = i + 1;
    }
    assert(text@.take(i as int) =~= text@);
}

fn push_register(out: &mut Vec<u8>, r: u32)
    ensures
        final(out)@ == old(out)@ + register_text(r),
{
    let le = u32_to_le_bytes(r);
    let text = from_utf8_lossy(le.as_slice());
    append_text(out, text.as_slice());
}

/// The processor brand string from the results of the brand leaves.
pub fn brand(leaves: &[CpuidResult]) -> (b: Vec<u8>)
    ensures
        b@ == brand_text(leaves@),
{
    let mut b: Vec<u8> = Vec::new();
    let mut i: usize = 0;
    while i < leaves.len()
        invariant
            i <= leaves@.len(),
            b@ == brand_text(leaves@.take(i as int)),
        decreases leaves@.len() - i,
    {
        let c = leaves[i];
        push_register(&mut b, c.eax);
        push_register(&mut b, c.ebx);
        push_register(&mut b, c.ecx);
        push_register(&mut b, c.edx);
        proof {
            let t = leaves@.take(i + 1);
            assert(t.drop_last() =~= leaves@.take(i as int));
            assert(t.last() == c);
            assert(b@ =~= brand_text(leaves@.take(i as int)) + leaf_text(c));
        }
        i = i + 1;
    }
    assert(leaves@.take(i as int) =~= leaves@);
    b
}

} // verus!
