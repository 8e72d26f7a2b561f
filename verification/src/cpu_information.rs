//! The values a CPU reports about itself, and where to ask for them.

use vstd::prelude::*;
use vstd::utf8::decode_utf8;
use vstd::utf8::valid_utf8;
use crate::scan::first_position;
use crate::scan::lemma_first_position_is;

verus! {

/// The input to a `cpuid` invocation.
#[derive(Debug, Clone, Copy, PartialEq, Eq, PartialOrd, Ord, Structural)]
pub struct CpuidQuery {
    pub leaf: u32,
    pub subleaf: u32,
}

impl CpuidQuery {
    /// The query for `leaf` that names no subleaf: its subleaf is 0.
    pub open spec fn leaf_only(leaf: u32) -> CpuidQuery {
        CpuidQuery { leaf, subleaf: 0 }
    }
}

/// Simple queries do not require a subleaf.
impl From<u32> for CpuidQuery {
    fn from(leaf: u32) -> (query: Self) {
        Self { leaf, subleaf: 0 }
    }
}

impl vstd::std_specs::convert::FromSpecImpl<u32> for CpuidQuery {
    open spec fn obeys_from_spec() -> bool {
        true
    }

    open spec fn from_spec(leaf: u32) -> Self {
        CpuidQuery::leaf_only(leaf)
    }
}

/// The result of a `cpuid` invocation.
#[derive(Debug, Clone, Copy, PartialEq, Eq, Structural)]
pub struct CpuidResult {
    pub eax: u32,
    pub ebx: u32,
    pub ecx: u32,
    pub edx: u32,
}

/// The registers of a [CpuidResult].
#[derive(Debug, Clone, Copy, PartialEq, Eq, Structural)]
pub enum CpuidRegister {
    Eax,
    Ebx,
    Ecx,
    Edx,
}

impl CpuidResult {
    /// The value that `reg` holds in this result.
    pub open spec fn register(self, reg: CpuidRegister) -> u32 {
        match reg {
            CpuidRegister::Eax => self.eax,
            CpuidRegister::Ebx => self.ebx,
            CpuidRegister::Ecx => self.ecx,
            CpuidRegister::Edx => self.edx,
        }
    }

    /// Retrieve a register value from a CPUID result.
    pub fn get(&self, reg: CpuidRegister) -> (value: u32)
        ensures
            value == self.register(reg),
    {
        match reg {
            CpuidRegister::Eax => self.eax,
            CpuidRegister::Ebx => self.ebx,
            CpuidRegister::Ecx => self.ecx,
            CpuidRegister::Edx => self.edx,
        }
    }
}

/// Byte `k` of `dword`, counted from the least significant: the dword
/// divided by 256 to the `k`, modulo 256.
pub open spec fn le_byte(dword: u32, k: int) -> u8 {
    if k == 0 {
        (dword % 256) as u8
    } else if k == 1 {
        (dword / 0x100 % 256) as u8
    } else if k == 2 {
        (dword / 0x1_0000 % 256) as u8
    } else {
        (dword / 0x100_0000 % 256) as u8
    }
}

/// The bytes of `dwords`, four for each dword in turn, least significant byte
/// first.
pub open spec fn le_bytes(dwords: Seq<u32>) -> Seq<u8> {
    Seq::new(4 * dwords.len(), |i: int| le_byte(dwords[i / 4], i % 4))
}

/// `bytes` up to its first zero byte, which is left out with all that follows.
pub open spec fn until_zero(bytes: Seq<u8>) -> Seq<u8> {
    bytes.take(first_position(bytes, 0u8) as int)
}

/// The text that `dwords` hold: their bytes up to the first zero byte.
pub open spec fn text_bytes(dwords: Seq<u32>) -> Seq<u8> {
    until_zero(le_bytes(dwords))
}

/// The value that `m` holds under `k`, if it holds one.
pub open spec fn lookup<K, V>(m: Map<K, V>, k: K) -> Option<V> {
    if m.contains_key(k) {
        Some(m[k])
    } else {
        None
    }
}

/// The maximum standard leaf that `cpuid` reports: eax of leaf 0, or 0 where
/// leaf 0 is unknown.
pub open spec fn max_standard_leaf_of(cpuid: Map<CpuidQuery, CpuidResult>) -> u32 {
    match lookup(cpuid, CpuidQuery::leaf_only(0)) {
        Some(r) => r.eax,
        None => 0,
    }
}

/// The maximum extended leaf that `cpuid` reports: eax of leaf `0x8000_0000`,
/// or `0x8000_0000` itself where that leaf is unknown, so that no extended
/// leaf counts as present.
pub open spec fn max_extended_leaf_of(cpuid: Map<CpuidQuery, CpuidResult>) -> u32 {
    match lookup(cpuid, CpuidQuery::leaf_only(0x8000_0000)) {
        Some(r) => r.eax,
        None => 0x8000_0000,
    }
}

/// The vendor identification that `cpuid` reports: the text held by ebx, edx
/// and ecx of leaf 0, in that order. Unknown where leaf 0 is.
pub open spec fn vendor_bytes_of(cpuid: Map<CpuidQuery, CpuidResult>) -> Option<Seq<u8>> {
    match lookup(cpuid, CpuidQuery::leaf_only(0)) {
        Some(r) => Some(text_bytes(seq![r.ebx, r.edx, r.ecx])),
        None => None,
    }
}

/// The four registers of a result in the order eax, ebx, ecx, edx.
pub open spec fn registers_of(r: CpuidResult) -> Seq<u32> {
    seq![r.eax, r.ebx, r.ecx, r.edx]
}

/// The model name that `cpuid` reports: the text held by the registers of
/// leaves `0x8000_0002`, `0x8000_0003` and `0x8000_0004`, in that order.
/// Unknown where the maximum extended leaf is below `0x8000_0004`, or one of
/// the three leaves is unknown.
pub open spec fn model_bytes_of(cpuid: Map<CpuidQuery, CpuidResult>) -> Option<Seq<u8>> {
    if max_extended_leaf_of(cpuid) < 0x8000_0004 {
        None
    } else {
        match (
            lookup(cpuid, CpuidQuery::leaf_only(0x8000_0002)),
            lookup(cpuid, CpuidQuery::leaf_only(0x8000_0003)),
            lookup(cpuid, CpuidQuery::leaf_only(0x8000_0004)),
        ) {
            (Some(r1), Some(r2), Some(r3)) => Some(
                text_bytes(registers_of(r1) + registers_of(r2) + registers_of(r3)),
            ),
            _ => None,
        }
    }
}

/// The text that lossy UTF-8 decoding makes of `bytes`.
pub uninterp spec fn utf8_lossy(bytes: Seq<u8>) -> Seq<char>;

/// The text that lossy decoding makes of optional bytes.
pub open spec fn lossy_text_of(bytes: Option<Seq<u8>>) -> Option<Seq<char>> {
    match bytes {
        Some(b) => Some(utf8_lossy(b)),
        None => None,
    }
}

/// The view of an optional string.
pub open spec fn text_view(text: Option<String>) -> Option<Seq<char>> {
    match text {
        Some(s) => Some(s@),
        None => None,
    }
}

/// The view of optional bytes.
pub open spec fn bytes_view(bytes: Option<Vec<u8>>) -> Option<Seq<u8>> {
    match bytes {
        Some(b) => Some(b@),
        None => None,
    }
}

/// Decodes `bytes` as UTF-8 with `String::from_utf8_lossy`, which puts a
/// replacement character in place of what is no valid UTF-8. The result is
/// named [`utf8_lossy`]; for valid UTF-8 it is the text that the bytes encode.
/// Nothing is proved of this function.
#[verifier::external_body]
fn decode_lossy(bytes: &[u8]) -> (text: String)
    ensures
        text@ == utf8_lossy(bytes@),
        valid_utf8(bytes@) ==> text@ == decode_utf8(bytes@),
{
    String::from_utf8_lossy(bytes).into_owned()
}

/// Converts a slice of 32-bit little-endian integers into a
/// `Vec<u8>`. This also trims zero bytes at the end: the result stops
/// before the first zero byte.
pub fn dwords_to_bytes(dwords: &[u32]) -> (bytes: Vec<u8>)
    ensures
        bytes@ == text_bytes(dwords@),
{
    let ghost all = le_bytes(dwords@);
    let mut bytes: Vec<u8> = Vec::new();
    let n = dwords.len();
    let mut i: usize = 0;
    while i < n
        invariant
            n == dwords@.len(),
            0 <= i <= n,
            all == le_bytes(dwords@),
            bytes@ == all.take(4 * i),
            forall|j: int| 0 <= j < 4 * i ==> #[trigger] all[j] != 0,
        decreases n - i,
    {
        let dword = dwords[i];
        let mut k: usize = 0;
        while k < 4
            invariant
                n == dwords@.len(),
                0 <= i < n,
                0 <= k <= 4,
                dword == dwords@[i as int],
                all == le_bytes(dwords@),
                bytes@ == all.take(4 * i + k),
                forall|j: int| 0 <= j < 4 * i + k ==> #[trigger] all[j] != 0,
            decreases 4 - k,
        {
            let byte: u8 = if k == 0 {
                (dword % 256) as u8
            } else if k == 1 {
                (dword / 0x100 % 256) as u8
            } else if k == 2 {
                (dword / 0x1_0000 % 256) as u8
            } else {
                (dword / 0x100_0000 % 256) as u8
            };
            if byte == 0 {
                proof {
                    lemma_first_position_is(all, 0u8, 4 * i + k);
                }
                return bytes;
            }
            bytes.push(byte);
            k += 1;
        }
        i += 1;
    }
    proof {
        lemma_first_position_is(all, 0u8, all.len() as int);
    }
    bytes
}

/// Puts the four registers of `r` at the end of `dwords`.
fn push_registers(dwords: &mut Vec<u32>, r: &CpuidResult)
    ensures
        final(dwords)@ == old(dwords)@ + registers_of(*r),
{
    dwords.push(r.eax);
    dwords.push(r.ebx);
    dwords.push(r.ecx);
    dwords.push(r.edx);
}

/// A trait for data structures that can be queried for CPUID or feature MSR information.
///
/// What such a source knows is two partial maps: from CPUID queries to their
/// results, and from MSR indices to their values. The two lookups read them;
/// all the rest is computed from the lookups alone.
pub trait CpuInformation {
    /// The CPUID results that this source knows, each under its query.
    /// Nothing is known of them unless the source says what they are.
    open spec fn cpuid_values(&self) -> Map<CpuidQuery, CpuidResult> {
        arbitrary()
    }

    /// The MSR values that this source knows, each under its index.
    /// Nothing is known of them unless the source says what they are.
    open spec fn msr_values(&self) -> Map<u32, u64> {
        arbitrary()
    }

    /// Return the result of a `cpuid` invocation.
    ///
    /// Returns `None` if the result is unknown.
    fn cpuid(&self, query: CpuidQuery) -> (result: Option<CpuidResult>)
        ensures
            result == lookup(self.cpuid_values(), query),
    ;

    /// Return the result of a `rdmsr` invocation.
    ///
    /// Returns `None` if the result is unknown.
    fn rdmsr(&self, index: u32) -> (value: Option<u64>)
        ensures
            value == lookup(self.msr_values(), index),
    ;

    /// The maximum supported standard CPUID leaf (the leaves from `0` on).
    fn max_standard_leaf(&self) -> (leaf: u32)
        ensures
            leaf == max_standard_leaf_of(self.cpuid_values()),
    {
        match self.cpuid(CpuidQuery { leaf: 0, subleaf: 0 }) {
            Some(r) => r.eax,
            None => 0,
        }
    }

    /// The maximum supported extended CPUID leaf (the leaves from
    /// `0x8000_0000` on).
    fn max_extended_leaf(&self) -> (leaf: u32)
        ensures
            leaf == max_extended_leaf_of(self.cpuid_values()),
    {
        match self.cpuid(CpuidQuery { leaf: 0x8000_0000, subleaf: 0 }) {
            Some(r) => r.eax,
            None => 0x8000_0000,
        }
    }

    /// Returns the vendor string as raw bytes.
    fn vendor_bytes(&self) -> (bytes: Option<Vec<u8>>)
        ensures
            bytes_view(bytes) == vendor_bytes_of(self.cpuid_values()),
    {
        match self.cpuid(CpuidQuery { leaf: 0, subleaf: 0 }) {
            Some(r) => {
                let mut dwords: Vec<u32> = Vec::new();
                dwords.push(r.ebx);
                dwords.push(r.edx);
                dwords.push(r.ecx);
                assert(dwords@ =~= seq![r.ebx, r.edx, r.ecx]);
                Some(dwords_to_bytes(dwords.as_slice()))
            },
            None => None,
        }
    }

    /// Returns the vendor name as string.
    ///
    /// This uses lossy conversion to UTF-8 in case the string is not
    /// valid UTF-8.
    fn vendor_name(&self) -> (name: Option<String>)
        ensures
            text_view(name) == lossy_text_of(vendor_bytes_of(self.cpuid_values())),
            vendor_bytes_of(self.cpuid_values()) matches Some(b) ==> (valid_utf8(b) ==> text_view(
                name,
            ) == Some(decode_utf8(b))),
    {
        match self.vendor_bytes() {
            Some(b) => Some(decode_lossy(b.as_slice())),
            None => None,
        }
    }

    /// The CPU model string as raw bytes.
    fn model_bytes(&self) -> (bytes: Option<Vec<u8>>)
        ensures
            bytes_view(bytes) == model_bytes_of(self.cpuid_values()),
    {
        if self.max_extended_leaf() < 0x8000_0004 {
            return None;
        }
        let r1 = match self.cpuid(CpuidQuery { leaf: 0x8000_0002, subleaf: 0 }) {
            Some(r) => r,
            None => { return None; },
        };
        let r2 = match self.cpuid(CpuidQuery { leaf: 0x8000_0003, subleaf: 0 }) {
            Some(r) => r,
            None => { return None; },
        };
        let r3 = match self.cpuid(CpuidQuery { leaf: 0x8000_0004, subleaf: 0 }) {
            Some(r) => r,
            None => { return None; },
        };
        let mut dwords: Vec<u32> = Vec::new();
        push_registers(&mut dwords, &r1);
        push_registers(&mut dwords, &r2);
        push_registers(&mut dwords, &r3);
        Some(dwords_to_bytes(dwords.as_slice()))
    }

    /// Returns the model name as string.
    ///
    /// This uses lossy conversion to UTF-8 in case the string is not
    /// valid UTF-8.
    fn model_name(&self) -> (name: Option<String>)
        ensures
            text_view(name) == lossy_text_of(model_bytes_of(self.cpuid_values())),
            model_bytes_of(self.cpuid_values()) matches Some(b) ==> (valid_utf8(b) ==> text_view(
                name,
            ) == Some(decode_utf8(b))),
    {
        match self.model_bytes() {
            Some(b) => Some(decode_lossy(b.as_slice())),
            None => None,
        }
    }
}

} // verus!
