//! 32-bit x86 instructions as the image scans read them, decoded by `iced_x86`.
//! Mnemonics, operand kinds and registers are carried as `iced_x86`'s own codes.
use vstd::prelude::*;

verus! {

/// `Mnemonic::INVALID`.
pub const MN_INVALID: u16 = 0;
/// `Mnemonic::Call`.
pub const MN_CALL: u16 = 59;
/// `Mnemonic::Jmp`.
pub const MN_JMP: u16 = 308;
/// `Mnemonic::Jne`.
pub const MN_JNE: u16 = 310;
/// `Mnemonic::Lea`.
pub const MN_LEA: u16 = 374;
/// `Mnemonic::Mov`.
pub const MN_MOV: u16 = 414;
/// `Mnemonic::Pop`.
pub const MN_POP: u16 = 590;
/// `Mnemonic::Push`.
pub const MN_PUSH: u16 = 640;
/// `Mnemonic::Ret`.
pub const MN_RET: u16 = 662;
/// `Mnemonic::Int3`.
pub const MN_INT3: u16 = 1620;

/// `OpKind::Register`.
pub const OP_REGISTER: u8 = 0;
/// `OpKind::NearBranch32`.
pub const OP_NEAR_BRANCH32: u8 = 2;
/// `OpKind::Immediate32`.
pub const OP_IMMEDIATE32: u8 = 9;
/// `OpKind::Memory`.
pub const OP_MEMORY: u8 = 24;

/// `Register::None`.
pub const REG_NONE: u8 = 0;
/// `Register::AL`.
pub const REG_AL: u8 = 1;
/// `Register::CL`.
pub const REG_CL: u8 = 2;
/// `Register::EAX`.
pub const REG_EAX: u8 = 37;
/// `Register::ECX`.
pub const REG_ECX: u8 = 38;
/// `Register::EBX`.
pub const REG_EBX: u8 = 40;
/// `Register::ESP`.
pub const REG_ESP: u8 = 41;
/// `Register::EBP`.
pub const REG_EBP: u8 = 42;
/// `Register::ESI`.
pub const REG_ESI: u8 = 43;
/// `Register::EDI`.
pub const REG_EDI: u8 = 44;

/// One decoded instruction: the parts of `iced_x86::Instruction` the scans look at.
#[derive(Clone, Copy, Debug, PartialEq, Eq)]
pub struct Decoded {
    pub invalid: bool,
    pub mnemonic: u16,
    pub len: usize,
    pub op_count: u32,
    pub op0_kind: u8,
    pub op1_kind: u8,
    pub op0_register: u8,
    pub op1_register: u8,
    pub memory_base: u8,
    pub memory_index: u8,
    pub displacement: u64,
    pub immediate32: u32,
    pub immediate16: u16,
    pub near_branch_target: u64,
    pub ip: u64,
    pub next_ip: u64,
}

/// The instruction `iced_x86` decodes from the start of `code`, in 32-bit mode, with the
/// instruction pointer at `ip`.
pub uninterp spec fn x86_decoded(code: Seq<u8>, ip: u64) -> Decoded;

/// Decodes the first instruction of `code` with `iced_x86::Decoder::with_ip(32, code, ip,
/// DecoderOptions::NONE).decode()` and reads it back through `Instruction`'s getters
/// (enumerations as their numeric codes). The result is named, not described; the decoder
/// reads nothing but `code` and `ip`. It would panic only for a slice ending within 16 bytes
/// of the top of the address space, which no allocation does.
#[verifier::external_body]
fn decode_x86(code: &[u8], ip: u64) -> (d: Decoded)
    requires
        code@.len() > 0,
    ensures
        d == x86_decoded(code@, ip),
{
    let i = iced_x86::Decoder::with_ip(32, code, ip, iced_x86::DecoderOptions::NONE).decode();
    Decoded {
        invalid: i.is_invalid(), mnemonic: i.mnemonic() as u16, len: i.len(), op_count: i.op_count(),
        op0_kind: i.op0_kind() as u8, op1_kind: i.op1_kind() as u8,
        op0_register: i.op0_register() as u8, op1_register: i.op1_register() as u8,
        memory_base: i.memory_base() as u8, memory_index: i.memory_index() as u8,
        displacement: i.memory_displacement64(), immediate32: i.immediate32(),
        immediate16: i.immediate16(), near_branch_target: i.near_branch_target(),
        ip: i.ip(), next_ip: i.next_ip(),
    }
}

/// The instruction at offset `p` of `code`, which starts at address `ip`.
pub open spec fn decode_at(code: Seq<u8>, ip: int, p: int) -> Decoded {
    x86_decoded(code.subrange(p, code.len() as int), (ip + p) as u64)
}

/// Whether decoding can go on after `d` at offset `p`: it took at least one byte and stayed
/// inside `code`.
pub open spec fn advances(code: Seq<u8>, p: int, d: Decoded) -> bool {
    d.len > 0 && p + d.len <= code.len()
}

/// Up to `n` instructions decoded in turn from offset `p` on, as far as the bytes go.
pub open spec fn listing(code: Seq<u8>, ip: int, p: int, n: nat) -> Seq<Decoded>
    decreases n,
{
    if n == 0 || p < 0 || p >= code.len() {
        Seq::empty()
    } else {
        let d = decode_at(code, ip, p);
        if advances(code, p, d) {
            seq![d] + listing(code, ip, p + d.len, (n - 1) as nat)
        } else {
            seq![d]
        }
    }
}

/// The function body decoded from offset `p` on: up to and including its first `ret`, or
/// `None` when an invalid instruction or an `int3` comes first or the bytes end before it.
pub open spec fn body_from(code: Seq<u8>, ip: int, p: int) -> Option<Seq<Decoded>>
    decreases code.len() - p,
{
    if p < 0 || p >= code.len() {
        None
    } else {
        let d = decode_at(code, ip, p);
        if d.invalid || d.mnemonic == MN_INT3 {
            None
        } else if d.mnemonic == MN_RET {
            Some(seq![d])
        } else if !advances(code, p, d) {
            None
        } else {
            match body_from(code, ip, p + d.len) {
                Some(rest) => Some(seq![d] + rest),
                None => None,
            }
        }
    }
}

/// Decodes up to `n` instructions of `code`, which starts at address `ip`.
pub fn decode_listing(code: &[u8], ip: u64, n: usize) -> (r: Vec<Decoded>)
    requires
        ip + code@.len() <= u64::MAX,
    ensures
        r@ == listing(code@, ip as int, 0, n as nat),
{
    let mut out: Vec<Decoded> = Vec::new();
    let mut p: usize = 0;
    let mut left: usize = n;
    while left > 0 && p < code.len()
        invariant
            ip + code@.len() <= u64::MAX,
            p <= code@.len(),
            left <= n,
            listing(code@, ip as int, 0, n as nat) == out@ + listing(code@, ip as int, p as int, left as nat),
        decreases left,
    {
        let ghost before = out@;
        let rest = vstd::slice::slice_subrange(code, p, code.len());
        let d = decode_x86(rest, ip + p as u64);
        out.push(d);
        if d.len == 0 || d.len > code.len() - p {
            assert(listing(code@, ip as int, p as int, left as nat) == seq![d]);
            return out;
        }
        assert(before + (seq![d] + listing(code@, ip as int, p + d.len, (left - 1) as nat))
            =~= out@ + listing(code@, ip as int, p + d.len, (left - 1) as nat));
        p = p + d.len;
        left = left - 1;
    }
    assert(out@ + listing(code@, ip as int, p as int, left as nat) =~= out@);
    out
}

/// Decodes the function body at the start of `code`, which starts at address `ip`.
pub fn decode_body(code: &[u8], ip: u64) -> (r: Option<Vec<Decoded>>)
    requires
        ip + code@.len() <= u64::MAX,
    ensures
        match r {
            Some(v) => body_from(code@, ip as int, 0) == Some(v@),
            None => body_from(code@, ip as int, 0) is None,
        },
{
    let mut out: Vec<Decoded> = Vec::new();
    let mut p: usize = 0;
    while p < code.len()
        invariant
            ip + code@.len() <= u64::MAX,
            p <= code@.len(),
            body_from(code@, ip as int, 0) == (match body_from(code@, ip as int, p as int) {
                Some(rest) => Some(out@ + rest),
                None => None::<Seq<Decoded>>,
            }),
        decreases code.len() - p,
    {
        let ghost before = out@;
        let rest = vstd::slice::slice_subrange(code, p, code.len());
        let d = decode_x86(rest, ip + p as u64);
        if d.invalid || d.mnemonic == MN_INT3 {
            return None;
        }
        out.push(d);
        if d.mnemonic == MN_RET {
            assert(before + seq![d] =~= out@);
            return Some(out);
        }
        if d.len == 0 || d.len > code.len() - p {
            return None;
        }
        proof {
            assert forall|tail: Seq<Decoded>| before + (seq![d] + tail) == #[trigger] (out@ + tail) by {
                assert(before + (seq![d] + tail) =~= out@ + tail);
            }
        }
        p = p + d.len;
    }
    None
}

/// The instructions decoded in turn from offset `p` on, up to the first `ret`, `jmp` or
/// `int3` (which is left out) or the end of the bytes.
pub open spec fn until_exit(code: Seq<u8>, ip: int, p: int) -> Seq<Decoded>
    decreases code.len() - p,
{
    if p < 0 || p >= code.len() {
        Seq::empty()
    } else {
        let d = decode_at(code, ip, p);
        if d.mnemonic == MN_RET || d.mnemonic == MN_JMP || d.mnemonic == MN_INT3 {
            Seq::empty()
        } else if !advances(code, p, d) {
            seq![d]
        } else {
            seq![d] + until_exit(code, ip, p + d.len)
        }
    }
}

/// Decodes `code`, which starts at address `ip`, up to its first `ret`, `jmp` or `int3`.
pub fn decode_until_exit(code: &[u8], ip: u64) -> (r: Vec<Decoded>)
    requires
        ip + code@.len() <= u64::MAX,
    ensures
        r@ == until_exit(code@, ip as int, 0),
{
    let mut out: Vec<Decoded> = Vec::new();
    let mut p: usize = 0;
    while p < code.len()
        invariant
            ip + code@.len() <= u64::MAX,
            p <= code@.len(),
            until_exit(code@, ip as int, 0) == out@ + until_exit(code@, ip as int, p as int),
        decreases code.len() - p,
    {
        let ghost before = out@;
        let rest = vstd::slice::slice_subrange(code, p, code.len());
        let d = decode_x86(rest, ip + p as u64);
        if d.mnemonic == MN_RET || d.mnemonic == MN_JMP || d.mnemonic == MN_INT3 {
            assert(out@ + until_exit(code@, ip as int, p as int) =~= out@);
            return out;
        }
        out.push(d);
        if d.len == 0 || d.len > code.len() - p {
            assert(before + seq![d] =~= out@);
            return out;
        }
        assert(before + (seq![d] + until_exit(code@, ip as int, p + d.len)) =~= out@ + until_exit(code@, ip as int,
            p + d.len));
        p = p + d.len;
    }
    assert(out@ + until_exit(code@, ip as int, p as int) =~= out@);
    out
}

} // verus!
