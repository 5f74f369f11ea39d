//! The scenario container: an immutable byte buffer holding the routine
//! instruction stream, the table of host syscalls, and the offset at which
//! the routine stream ends. All reads are fixed-width little-endian reads at
//! absolute byte offsets.

use vstd::prelude::*;

use crate::error::DisasmError;

verus! {

/// The largest buffer the container accepts. Stream addresses are 32-bit,
/// and the bound leaves headroom so that advancing the cursor over one
/// instruction's operands can never overflow 32 bits.
pub const MAX_SCENARIO_BYTES: usize = 0xFFFF_0000;

/// A host-provided routine, invoked by numeric id.
#[derive(Debug, Clone)]
pub struct Syscall {
    /// The syscall's symbolic name.
    pub name: String,
    /// The declared number of arguments the virtual machine pops for it.
    pub args: u8,
}

/// Model of a `Syscall`.
#[verifier::ext_equal]
pub struct SyscallV {
    pub name: Seq<char>,
    pub args: u8,
}

/// Model of a `Syscall` value.
pub open spec fn syscall_view(s: Syscall) -> SyscallV {
    SyscallV { name: s.name@, args: s.args }
}

/// Model of a syscall table, elementwise.
pub open spec fn syscall_seq_view(s: Seq<Syscall>) -> Seq<SyscallV>
    decreases s,
{
    if s.len() == 0 {
        Seq::<SyscallV>::empty()
    } else {
        syscall_seq_view(s.drop_last()).push(syscall_view(s.last()))
    }
}

/// `syscall_seq_view` maps the table elementwise.
pub proof fn lemma_syscall_seq_view(s: Seq<Syscall>)
    ensures
        syscall_seq_view(s).len() == s.len(),
        forall|i: int| 0 <= i < s.len() ==> syscall_seq_view(s)[i] == syscall_view(s[i]),
    decreases s.len(),
{
    if s.len() > 0 {
        lemma_syscall_seq_view(s.drop_last());
        assert forall|i: int| 0 <= i < s.len() implies syscall_seq_view(s)[i] == syscall_view(
            s[i],
        ) by {
            if i < s.len() - 1 {
                assert(syscall_seq_view(s.drop_last())[i] == syscall_view(s.drop_last()[i]));
            }
        }
    }
}

/// The unsigned 16-bit little-endian value at `pos`.
pub open spec fn le_u16(b: Seq<u8>, pos: int) -> u16 {
    (b[pos] + b[pos + 1] * 0x100) as u16
}

/// The unsigned 32-bit little-endian value at `pos`.
pub open spec fn le_u32(b: Seq<u8>, pos: int) -> u32 {
    (b[pos] + b[pos + 1] * 0x100 + b[pos + 2] * 0x1_0000 + b[pos + 3] * 0x100_0000) as u32
}

/// The byte `v` reinterpreted as a signed two's-complement value.
pub open spec fn as_i8(v: u8) -> i8 {
    if v >= 0x80 {
        (v - 0x100) as i8
    } else {
        v as i8
    }
}

/// The 16-bit value `v` reinterpreted as a signed two's-complement value.
pub open spec fn as_i16(v: u16) -> i16 {
    if v >= 0x8000 {
        (v - 0x1_0000) as i16
    } else {
        v as i16
    }
}

/// The 32-bit value `v` reinterpreted as a signed two's-complement value.
pub open spec fn as_i32(v: u32) -> i32 {
    if v >= 0x8000_0000 {
        (v - 0x1_0000_0000) as i32
    } else {
        v as i32
    }
}

/// The loaded scenario container. The buffer and the tables are immutable
/// once built; both disassembly passes share them read-only.
#[derive(Debug)]
pub struct Scenario {
    data: Vec<u8>,
    syscalls: Vec<Syscall>,
    sys_desc_offset: u32,
}

impl Scenario {
    /// The container's validity: the routine stream ends inside the buffer,
    /// and the buffer fits 32-bit addressing with operand headroom.
    pub closed spec fn wf(&self) -> bool {
        &&& self.sys_desc_offset as int <= self.data@.len()
        &&& self.data@.len() <= MAX_SCENARIO_BYTES as int
    }

    /// The raw bytes of the container.
    pub closed spec fn bytes(&self) -> Seq<u8> {
        self.data@
    }

    /// The syscall table, by numeric id.
    pub closed spec fn sys(&self) -> Seq<SyscallV> {
        syscall_seq_view(self.syscalls@)
    }

    /// The exclusive upper bound of the routine instruction stream.
    pub closed spec fn end(&self) -> int {
        self.sys_desc_offset as int
    }

    /// A valid container keeps its stream end inside the buffer and the
    /// buffer within 32-bit addressing.
    pub proof fn lemma_wf_bounds(&self)
        requires
            self.wf(),
        ensures
            self.end() <= self.bytes().len() <= MAX_SCENARIO_BYTES as int,
    {
    }

    /// Builds a container from its parts, rejecting a stream end that lies
    /// outside the buffer and a buffer too large for 32-bit addressing.
    pub fn new(data: Vec<u8>, syscalls: Vec<Syscall>, sys_desc_offset: u32) -> (r: Result<
        Self,
        DisasmError,
    >)
        ensures
            (sys_desc_offset as int <= data@.len() <= MAX_SCENARIO_BYTES as int) ==> (r matches
                Ok(s) && s.wf() && s.bytes() == data@ && s.sys() == syscall_seq_view(syscalls@)
                && s.end() == sys_desc_offset as int),
            !(sys_desc_offset as int <= data@.len() <= MAX_SCENARIO_BYTES as int) ==> r
                == Err::<Self, DisasmError>(DisasmError::InvalidStreamEnd {
                offset: sys_desc_offset,
            }),
    {
        if data.len() <= MAX_SCENARIO_BYTES && (sys_desc_offset as usize) <= data.len() {
            Ok(Scenario { data, syscalls, sys_desc_offset })
        } else {
            Err(DisasmError::InvalidStreamEnd { offset: sys_desc_offset })
        }
    }

    /// The offset at which the routine stream ends.
    pub fn get_sys_desc_offset(&self) -> (r: u32)
        ensures
            r as int == self.end(),
    {
        self.sys_desc_offset
    }

    /// Looks a syscall up by numeric id; ids at or past the table's length
    /// are unknown.
    pub fn get_syscall(&self, id: u16) -> (r: Option<&Syscall>)
        ensures
            (id as int) < self.sys().len() ==> (r matches Some(s) && syscall_view(*s)
                == self.sys()[id as int]),
            (id as int) >= self.sys().len() ==> r is None,
    {
        proof {
            lemma_syscall_seq_view(self.syscalls@);
        }
        if (id as usize) < self.syscalls.len() {
            Some(&self.syscalls[id as usize])
        } else {
            None
        }
    }

    /// Reads the byte at `offset`.
    pub fn read_u8(&self, offset: usize) -> (r: Result<u8, DisasmError>)
        ensures
            offset < self.bytes().len() ==> r == Ok::<u8, DisasmError>(self.bytes()[offset as int]),
            offset >= self.bytes().len() ==> r == Err::<u8, DisasmError>(DisasmError::OutOfBounds {
                offset,
            }),
    {
        if offset < self.data.len() {
            Ok(self.data[offset])
        } else {
            Err(DisasmError::OutOfBounds { offset })
        }
    }

    /// Reads the byte at `offset` as a signed value.
    pub fn read_i8(&self, offset: usize) -> (r: Result<i8, DisasmError>)
        ensures
            offset < self.bytes().len() ==> r == Ok::<i8, DisasmError>(
                as_i8(self.bytes()[offset as int]),
            ),
            offset >= self.bytes().len() ==> r == Err::<i8, DisasmError>(DisasmError::OutOfBounds {
                offset,
            }),
    {
        if offset < self.data.len() {
            let b = self.data[offset];
            if b >= 0x80 {
                Ok(((b as i16) - 0x100) as i8)
            } else {
                Ok(b as i8)
            }
        } else {
            Err(DisasmError::OutOfBounds { offset })
        }
    }

    /// Reads the unsigned 16-bit little-endian value at `offset`.
    pub fn read_u16(&self, offset: usize) -> (r: Result<u16, DisasmError>)
        ensures
            offset + 2 <= self.bytes().len() ==> r == Ok::<u16, DisasmError>(
                le_u16(self.bytes(), offset as int),
            ),
            offset + 2 > self.bytes().len() ==> r == Err::<u16, DisasmError>(
                DisasmError::OutOfBounds { offset },
            ),
    {
        if self.data.len() >= 2 && offset <= self.data.len() - 2 {
            let lo = self.data[offset] as u16;
            let hi = self.data[offset + 1] as u16;
            Ok(lo + hi * 0x100)
        } else {
            Err(DisasmError::OutOfBounds { offset })
        }
    }

    /// Reads the signed 16-bit little-endian value at `offset`.
    pub fn read_i16(&self, offset: usize) -> (r: Result<i16, DisasmError>)
        ensures
            offset + 2 <= self.bytes().len() ==> r == Ok::<i16, DisasmError>(
                as_i16(le_u16(self.bytes(), offset as int)),
            ),
            offset + 2 > self.bytes().len() ==> r == Err::<i16, DisasmError>(
                DisasmError::OutOfBounds { offset },
            ),
    {
        match self.read_u16(offset) {
            Ok(v) => {
                if v >= 0x8000 {
                    Ok(((v as i32) - 0x1_0000) as i16)
                } else {
                    Ok(v as i16)
                }
            },
            Err(e) => Err(e),
        }
    }

    /// Reads the unsigned 32-bit little-endian value at `offset`.
    pub fn read_u32(&self, offset: usize) -> (r: Result<u32, DisasmError>)
        ensures
            offset + 4 <= self.bytes().len() ==> r == Ok::<u32, DisasmError>(
                le_u32(self.bytes(), offset as int),
            ),
            offset + 4 > self.bytes().len() ==> r == Err::<u32, DisasmError>(
                DisasmError::OutOfBounds { offset },
            ),
    {
        if self.data.len() >= 4 && offset <= self.data.len() - 4 {
            let b0 = self.data[offset] as u32;
            let b1 = self.data[offset + 1] as u32;
            let b2 = self.data[offset + 2] as u32;
            let b3 = self.data[offset + 3] as u32;
            Ok(b0 + b1 * 0x100 + b2 * 0x1_0000 + b3 * 0x100_0000)
        } else {
            Err(DisasmError::OutOfBounds { offset })
        }
    }

    /// Reads the signed 32-bit little-endian value at `offset`.
    pub fn read_i32(&self, offset: usize) -> (r: Result<i32, DisasmError>)
        ensures
            offset + 4 <= self.bytes().len() ==> r == Ok::<i32, DisasmError>(
                as_i32(le_u32(self.bytes(), offset as int)),
            ),
            offset + 4 > self.bytes().len() ==> r == Err::<i32, DisasmError>(
                DisasmError::OutOfBounds { offset },
            ),
    {
        match self.read_u32(offset) {
            Ok(v) => {
                if v >= 0x8000_0000 {
                    Ok(((v as i64) - 0x1_0000_0000) as i32)
                } else {
                    Ok(v as i32)
                }
            },
            Err(e) => Err(e),
        }
    }

    /// Reads the raw bits of the 32-bit float constant at `offset`. The bits
    /// are carried undecoded; interpreting them is a presentation concern.
    pub fn read_f32_bits(&self, offset: usize) -> (r: Result<u32, DisasmError>)
        ensures
            offset + 4 <= self.bytes().len() ==> r == Ok::<u32, DisasmError>(
                le_u32(self.bytes(), offset as int),
            ),
            offset + 4 > self.bytes().len() ==> r == Err::<u32, DisasmError>(
                DisasmError::OutOfBounds { offset },
            ),
    {
        self.read_u32(offset)
    }

    /// Reads the `len` raw bytes of a string constant starting at `offset`,
    /// undecoded; text decoding is a presentation concern.
    pub fn read_string_bytes(&self, offset: usize, len: usize) -> (r: Result<Vec<u8>, DisasmError>)
        ensures
            offset + len <= self.bytes().len() ==> (r matches Ok(v) && v@ == self.bytes().subrange(
                offset as int,
                offset + len,
            )),
            offset + len > self.bytes().len() ==> r == Err::<Vec<u8>, DisasmError>(
                DisasmError::OutOfBounds { offset },
            ),
    {
        if len <= self.data.len() && offset <= self.data.len() - len {
            let mut v: Vec<u8> = Vec::new();
            let mut i: usize = 0;
            while i < len
                invariant
                    i <= len,
                    offset + len <= self.data@.len(),
                    offset + len <= usize::MAX,
                    v@ == self.data@.subrange(offset as int, offset + i),
                decreases len - i,
            {
                v.push(self.data[offset + i]);
                proof {
                    assert(self.data@.subrange(offset as int, offset + i).push(
                        self.data@[offset + i],
                    ) =~= self.data@.subrange(offset as int, offset + i + 1));
                }
                i = i + 1;
            }
            Ok(v)
        } else {
            Err(DisasmError::OutOfBounds { offset })
        }
    }
}

} // verus!
