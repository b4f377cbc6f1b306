//! The loaded CatSystem2 executable as the adapter reads it: the layout taken from its
//! PE header, and the byte-level lookups that locate the virtual table of the engine's
//! text object through its MSVC run-time type information.
use vstd::prelude::*;
use crate::catsystem2::Profile;
use crate::chars::copy_range;

verus! {

/// The largest image the adapter maps (256 MiB).
pub const MAX_IMAGE_SIZE: usize = 256 * 1024 * 1024;
/// The most sections a header may declare.
pub const MAX_SECTIONS: usize = 96;

/// A little-endian `u16` at `at`, if the bytes are there.
pub open spec fn le16_at(h: Seq<u8>, at: int) -> Option<int> {
    if at < 0 || at + 2 > h.len() { None } else { Some(h[at] + h[at + 1] * 256) }
}

/// A little-endian `u32` at `at`, if the bytes are there.
pub open spec fn le32_at(h: Seq<u8>, at: int) -> Option<int> {
    if at < 0 || at + 4 > h.len() {
        None
    } else {
        Some(h[at] + h[at + 1] * 256 + h[at + 2] * 65536 + h[at + 3] * 16777216)
    }
}

fn read_le16(h: &[u8], at: usize) -> (r: Option<usize>)
    ensures
        match r {
            Some(v) => le16_at(h@, at as int) == Some(v as int),
            None => le16_at(h@, at as int) is None,
        },
{
    if at > h.len() || h.len() - at < 2 {
        return None;
    }
    Some(h[at] as usize + h[at + 1] as usize * 256)
}

fn read_le32(h: &[u8], at: usize) -> (r: Option<usize>)
    ensures
        match r {
            Some(v) => le32_at(h@, at as int) == Some(v as int) && v <= u32::MAX,
            None => le32_at(h@, at as int) is None,
        },
{
    if at > h.len() || h.len() - at < 4 {
        return None;
    }
    let v: u64 = h[at] as u64 + h[at + 1] as u64 * 256 + h[at + 2] as u64 * 65536 + h[at + 3] as u64 * 16777216;
    Some(v as usize)
}

/// The executable sections from section `i` on: `(start, end)` offsets, or `None` when a
/// section runs past the image.
pub open spec fn sections_from(h: Seq<u8>, table: int, count: int, size: int, i: int) -> Option<Seq<(int, int)>>
    decreases count - i,
{
    if i < 0 || i >= count {
        Some(Seq::empty())
    } else {
        let section = table + i * 40;
        match (le32_at(h, section + 12), le32_at(h, section + 8), le32_at(h, section + 36)) {
            (Some(start), Some(length), Some(flags)) => if start + length > size {
                None
            } else {
                match sections_from(h, table, count, size, i + 1) {
                    Some(rest) => if (flags as u32) & 0x20000000u32 != 0 {
                        Some(seq![(start, start + length)] + rest)
                    } else {
                        Some(rest)
                    },
                    None => None,
                }
            },
            _ => None,
        }
    }
}

/// The image size and executable sections a 32-bit PE header describes, or `None` for
/// anything else: not `MZ`/`PE` for i386, not a PE32 optional header, a size outside
/// 4 KiB..256 MiB, more than 96 sections, or a section past the end.
pub open spec fn pe_layout(h: Seq<u8>) -> Option<(int, Seq<(int, int)>)> {
    if h.len() < 2 || h[0] != 0x4du8 || h[1] != 0x5au8 {
        None
    } else {
        match le32_at(h, 60) {
            None => None,
            Some(pe) => if pe + 6 > h.len() || h[pe] != 0x50u8 || h[pe + 1] != 0x45u8 || h[pe + 2] != 0u8
                || h[pe + 3] != 0u8 || h[pe + 4] != 0x4cu8 || h[pe + 5] != 0x01u8 {
                None
            } else {
                match (le16_at(h, pe + 24), le32_at(h, pe + 80), le16_at(h, pe + 6), le16_at(h, pe + 20)) {
                    (Some(magic), Some(size), Some(count), Some(optional)) => if magic != 0x10b
                        || size < 4096 || size > MAX_IMAGE_SIZE || count > MAX_SECTIONS {
                        None
                    } else {
                        match sections_from(h, pe + 24 + optional, count, size, 0) {
                            Some(s) => Some((size, s)),
                            None => None,
                        }
                    },
                    _ => None,
                }
            },
        }
    }
}

/// The layout of a mapped image: its size and its executable ranges (absolute addresses).
#[derive(Clone, Debug, PartialEq, Eq)]
pub struct PeLayout {
    pub size: usize,
    pub executable: Vec<(usize, usize)>,
}

/// Parses the header page (the first 4 KiB) of an image mapped at `base`.
#[verifier::loop_isolation(false)]
pub fn parse_pe_layout(header: &[u8], base: usize) -> (r: Option<PeLayout>)
    requires
        header@.len() <= 4096,
        base + MAX_IMAGE_SIZE <= usize::MAX,
    ensures
        match r {
            Some(l) => pe_layout(header@) matches Some((size, s)) && l.size == size
                && l.executable@.len() == s.len()
                && forall|k: int| 0 <= k < s.len() ==> (#[trigger] l.executable@[k]).0 == base + s[k].0
                    && l.executable@[k].1 == base + s[k].1,
            None => pe_layout(header@) is None,
        },
{
    let h = header;
    if h.len() < 2 || h[0] != 0x4d || h[1] != 0x5a {
        return None;
    }
    let pe = match read_le32(h, 60) {
        Some(v) => v,
        None => return None,
    };
    if pe > h.len() || h.len() - pe < 6 || h[pe] != 0x50 || h[pe + 1] != 0x45 || h[pe + 2] != 0 || h[pe + 3] != 0
        || h[pe + 4] != 0x4c || h[pe + 5] != 0x01 {
        return None;
    }
    let magic = read_le16(h, pe + 24);
    let size = read_le32(h, pe + 80);
    let count = read_le16(h, pe + 6);
    let optional = read_le16(h, pe + 20);
    let (magic, size, count, optional) = match (magic, size, count, optional) {
        (Some(a), Some(b), Some(c), Some(d)) => (a, b, c, d),
        _ => return None,
    };
    if magic != 0x10b || size < 4096 || size > MAX_IMAGE_SIZE || count > MAX_SECTIONS {
        return None;
    }
    let table = pe + 24 + optional;
    let mut out: Vec<(usize, usize)> = Vec::new();
    let ghost mut taken: Seq<(int, int)> = Seq::empty();
    let mut i: usize = 0;
    while i < count
        invariant
            i <= count <= MAX_SECTIONS,
            size <= MAX_IMAGE_SIZE,
            base + MAX_IMAGE_SIZE <= usize::MAX,
            table == pe + 24 + optional,
            pe <= h.len(),
            h@.len() <= 4096,
            optional < 65536,
            out@.len() == taken.len(),
            forall|k: int| 0 <= k < taken.len() ==> (#[trigger] out@[k]).0 == base + taken[k].0
                && out@[k].1 == base + taken[k].1,
            sections_from(h@, table as int, count as int, size as int, 0) == (match sections_from(h@, table as int,
                count as int, size as int, i as int) {
                Some(rest) => Some(taken + rest),
                None => None::<Seq<(int, int)>>,
            }),
        decreases count - i,
    {
        let section = table + i * 40;
        let start = read_le32(h, section + 12);
        let length = read_le32(h, section + 8);
        let flags = read_le32(h, section + 36);
        let (start, length, flags) = match (start, length, flags) {
            (Some(a), Some(b), Some(c)) => (a, b, c),
            _ => {
                assert(sections_from(h@, table as int, count as int, size as int, i as int) is None);
                return None;
            },
        };
        if start > size || length > size - start {
            assert(sections_from(h@, table as int, count as int, size as int, i as int) is None);
            return None;
        }
        proof {
            assert(sections_from(h@, table as int, count as int, size as int, i as int) == match sections_from(h@,
                table as int, count as int, size as int, i + 1) {
                Some(rest) => if (flags as u32) & 0x20000000u32 != 0 {
                    Some(seq![(start as int, start + length)] + rest)
                } else {
                    Some(rest)
                },
                None => None,
            });
        }
        if (flags as u32) & 0x20000000u32 != 0 {
            out.push((base + start, base + start + length));
            proof {
                let ghost before = taken;
                taken = taken + seq![(start as int, start + length)];
                assert forall|rest: Seq<(int, int)>| before + (seq![(start as int, start + length)] + rest)
                    == #[trigger] (taken + rest) by {
                    assert(before + (seq![(start as int, start + length)] + rest) =~= taken + rest);
                }
            }
        }
        i += 1;
    }
    proof {
        assert(taken + Seq::<(int, int)>::empty() =~= taken);
    }
    Some(PeLayout { size, executable: out })
}

/// The shape of one engine text class: its profile, virtual table and the methods and
/// members the hooks use.
#[derive(Clone, Copy, Debug, PartialEq, Eq)]
pub struct Shape {
    pub profile: Profile,
    pub table: usize,
    pub setter: usize,
    pub append: usize,
    pub destroy: usize,
    pub tick: usize,
    pub text_member: usize,
    pub show: usize,
    pub finish: usize,
    pub history: Option<(usize, usize)>,
}

/// The mapped image: its base address, its bytes, and its executable ranges.
#[derive(Clone, Debug, PartialEq, Eq)]
pub struct Image {
    pub base: usize,
    pub bytes: Vec<u8>,
    pub executable: Vec<(usize, usize)>,
}

/// An image that ends well below the top of the address space.
pub open spec fn image_fits(img: Image) -> bool {
    img.base + img.bytes@.len() + 1024 <= usize::MAX
}

/// The `len` bytes at address `at`, when they lie inside the image.
pub open spec fn image_bytes(img: Image, at: int, len: int) -> Option<Seq<u8>> {
    if at < img.base || len < 0 || at - img.base + len > img.bytes@.len() {
        None
    } else {
        Some(img.bytes@.subrange(at - img.base, at - img.base + len))
    }
}

/// The little-endian `u32` at address `at`.
pub open spec fn image_word(img: Image, at: int) -> Option<int> {
    match image_bytes(img, at, 4) {
        Some(b) => le32_at(b, 0),
        None => None,
    }
}

/// Whether `at` lies in an executable range.
pub open spec fn image_code(img: Image, at: int) -> bool {
    exists|k: int| 0 <= k < img.executable@.len() && (#[trigger] img.executable@[k]).0 <= at < img.executable@[k].1
}

/// The addresses where `needle` occurs, from offset `i` on, in increasing order.
pub open spec fn occurrences_from(img: Image, needle: Seq<u8>, i: int) -> Seq<usize>
    decreases img.bytes@.len() + 1 - i,
{
    if i < 0 || i + needle.len() > img.bytes@.len() {
        Seq::empty()
    } else if img.bytes@.subrange(i, i + needle.len()) == needle {
        seq![(img.base + i) as usize] + occurrences_from(img, needle, i + 1)
    } else {
        occurrences_from(img, needle, i + 1)
    }
}

/// The little-endian bytes of `v`.
pub open spec fn le_bytes(v: u32) -> Seq<u8> {
    seq![(v % 256) as u8, ((v / 256) % 256) as u8, ((v / 65536) % 256) as u8, (v / 16777216) as u8]
}

/// The addresses that hold a pointer to `at` (its low 32 bits, as the x86 image stores it).
pub open spec fn references_to(img: Image, at: int) -> Seq<usize> {
    occurrences_from(img, le_bytes(at as u32), 0)
}

/// A complete object locator at `locator`: signature, offset and constructor displacement
/// all zero, and a type descriptor pointer to readable bytes.
pub open spec fn locator_ok(img: Image, locator: int) -> bool {
    image_word(img, locator) == Some(0int) && image_word(img, locator + 4) == Some(0int)
        && image_word(img, locator + 8) == Some(0int)
        && match image_word(img, locator + 16) {
            Some(p) => image_bytes(img, p, 16) is Some,
            None => false,
        }
}

/// Every one of the first `slots` entries of the table at `table` points into code.
pub open spec fn slots_ok(img: Image, table: int, slots: int) -> bool {
    forall|s: int| 0 <= s < slots ==> match #[trigger] image_word(img, table + s * 4) {
        Some(p) => image_code(img, p),
        None => false,
    }
}

/// The tables right after the references `refs[i..]` to a locator.
pub open spec fn locator_tables(img: Image, refs: Seq<usize>, slots: int, i: int) -> Seq<usize>
    decreases refs.len() - i,
{
    if i < 0 || i >= refs.len() {
        Seq::empty()
    } else if slots_ok(img, refs[i] + 4, slots) {
        seq![(refs[i] + 4) as usize] + locator_tables(img, refs, slots, i + 1)
    } else {
        locator_tables(img, refs, slots, i + 1)
    }
}

/// The tables reachable from the references `fields[i..]` to a type descriptor, each field
/// being the type-descriptor member (offset 12) of an object locator.
pub open spec fn descriptor_tables(img: Image, fields: Seq<usize>, slots: int, i: int) -> Seq<usize>
    decreases fields.len() - i,
{
    if i < 0 || i >= fields.len() {
        Seq::empty()
    } else if fields[i] >= 12 && locator_ok(img, fields[i] - 12) {
        locator_tables(img, references_to(img, fields[i] - 12), slots, 0) + descriptor_tables(img, fields, slots, i + 1)
    } else {
        descriptor_tables(img, fields, slots, i + 1)
    }
}

/// The tables reachable from the occurrences `names[i..]` of a decorated type name (each
/// 8 bytes into its type descriptor); `None` when a name sits too low to have one.
pub open spec fn name_tables(img: Image, names: Seq<usize>, slots: int, i: int) -> Option<Seq<usize>>
    decreases names.len() - i,
{
    if i < 0 || i >= names.len() {
        Some(Seq::empty())
    } else if names[i] < 8 {
        None
    } else {
        match name_tables(img, names, slots, i + 1) {
            Some(rest) => Some(descriptor_tables(img, references_to(img, names[i] - 8), slots, 0) + rest),
            None => None,
        }
    }
}

/// The one table found, when all candidates are the same table.
pub open spec fn unique_table(c: Seq<usize>) -> Option<usize> {
    if c.len() > 0 && forall|k: int| 0 <= k < c.len() ==> #[trigger] c[k] == c[0] { Some(c[0]) } else { None }
}

/// The virtual table of the class whose decorated name is `name`: the one table whose first
/// `slots` entries point into code, among those its type descriptor and locators lead to.
pub open spec fn table_named(img: Image, name: Seq<u8>, slots: int) -> Option<usize> {
    match name_tables(img, occurrences_from(img, name, 0), slots, 0) {
        Some(c) => unique_table(c),
        None => None,
    }
}

/// The one entry of `c`, computed.
pub fn sole_entry(c: &Vec<usize>) -> (r: Option<usize>)
    ensures
        r == unique_table(c@),
{
    if c.len() == 0 {
        return None;
    }
    let first = c[0];
    let mut k: usize = 0;
    while k < c.len()
        invariant
            k <= c@.len(),
            c@.len() > 0,
            first == c@[0],
            forall|j: int| 0 <= j < k ==> #[trigger] c@[j] == c@[0],
        decreases c.len() - k,
    {
        if c[k] != first {
            assert(c@[k as int] != c@[0]);
            return None;
        }
        k += 1;
    }
    Some(first)
}

impl Image {
    pub fn read(&self, at: usize, len: usize) -> (r: Option<Vec<u8>>)
        ensures
            match r {
                Some(v) => image_bytes(*self, at as int, len as int) == Some(v@),
                None => image_bytes(*self, at as int, len as int) is None,
            },
    {
        if at < self.base {
            return None;
        }
        let start = at - self.base;
        if start > self.bytes.len() || len > self.bytes.len() - start {
            return None;
        }
        Some(copy_range(self.bytes.as_slice(), start, start + len))
    }

    pub fn word(&self, at: usize) -> (r: Option<usize>)
        ensures
            match r {
                Some(v) => image_word(*self, at as int) == Some(v as int),
                None => image_word(*self, at as int) is None,
            },
    {
        match self.read(at, 4) {
            Some(b) => read_le32(b.as_slice(), 0),
            None => None,
        }
    }

    pub fn code(&self, at: usize) -> (r: bool)
        ensures
            r == image_code(*self, at as int),
    {
        let mut k: usize = 0;
        while k < self.executable.len()
            invariant
                k <= self.executable@.len(),
                forall|j: int| 0 <= j < k ==> !((#[trigger] self.executable@[j]).0 <= at < self.executable@[j].1),
            decreases self.executable.len() - k,
        {
            let (start, end) = self.executable[k];
            if start <= at && at < end {
                assert(self.executable@[k as int].0 <= at < self.executable@[k as int].1);
                return true;
            }
            k += 1;
        }
        false
    }

    fn matches_at(&self, needle: &[u8], i: usize) -> (r: bool)
        requires
            i + needle@.len() <= self.bytes@.len(),
        ensures
            r == (self.bytes@.subrange(i as int, i + needle@.len()) == needle@),
    {
        let n = needle.len();
        let mut k: usize = 0;
        while k < n
            invariant
                n == needle@.len(),
                k <= n,
                i + n <= self.bytes.len(),
                self.bytes.len() == self.bytes@.len(),
                forall|j: int| 0 <= j < k ==> self.bytes@[i + j] == needle@[j],
            decreases needle.len() - k,
        {
            if self.bytes[i + k] != needle[k] {
                assert(self.bytes@.subrange(i as int, i + needle@.len())[k as int] != needle@[k as int]);
                return false;
            }
            k += 1;
        }
        assert(self.bytes@.subrange(i as int, i + needle@.len()) =~= needle@);
        true
    }

    /// The addresses where `needle` occurs, in increasing order.
    pub fn occurrences(&self, needle: &[u8]) -> (r: Vec<usize>)
        requires
            needle@.len() > 0,
            image_fits(*self),
        ensures
            r@ == occurrences_from(*self, needle@, 0),
    {
        let mut out: Vec<usize> = Vec::new();
        let n = needle.len();
        let len = self.bytes.len();
        if n > len {
            return out;
        }
        let mut i: usize = 0;
        while n <= len - i
            invariant
                n == needle@.len(),
                len == self.bytes@.len(),
                n > 0,
                image_fits(*self),
                i <= len,
                occurrences_from(*self, needle@, 0) == out@ + occurrences_from(*self, needle@, i as int),
            decreases len - i,
        {
            let ghost before = out@;
            if self.matches_at(needle, i) {
                out.push(self.base + i);
                assert(before + (seq![(self.base + i) as usize] + occurrences_from(*self, needle@, i + 1))
                    =~= out@ + occurrences_from(*self, needle@, i + 1));
            }
            i += 1;
        }
        assert(out@ + occurrences_from(*self, needle@, i as int) =~= out@);
        out
    }

    /// The addresses that hold a pointer to `at`.
    pub fn references(&self, at: usize) -> (r: Vec<usize>)
        requires
            image_fits(*self),
        ensures
            r@ == references_to(*self, at as int),
    {
        let v: u32 = at as u32;
        let mut needle: Vec<u8> = Vec::new();
        needle.push((v % 256) as u8);
        needle.push(((v / 256) % 256) as u8);
        needle.push(((v / 65536) % 256) as u8);
        needle.push((v / 16777216) as u8);
        assert(needle@ =~= le_bytes(at as u32));
        self.occurrences(&needle)
    }
}

/// The decorated name of the UTF-8 text object class, as its type descriptor holds it.
pub const TEXT_OBJECT_TYPE: &'static str = ".?AVkcFEScriptObjStringUTF8@@\0";
/// The decorated name of the history (log) text object class.
pub const HISTORY_OBJECT_TYPE: &'static str = ".?AVkcFEScriptObjLogStringUTF8@@\0";

pub proof fn lemma_occurrences_in_image(img: Image, needle: Seq<u8>, i: int)
    requires
        image_fits(img),
        i >= 0,
    ensures
        forall|k: int| 0 <= k < occurrences_from(img, needle, i).len() ==> img.base <= #[trigger] occurrences_from(img,
            needle, i)[k] && occurrences_from(img, needle, i)[k] + needle.len() <= img.base + img.bytes@.len(),
    decreases img.bytes@.len() + 1 - i,
{
    if !(i + needle.len() > img.bytes@.len()) {
        lemma_occurrences_in_image(img, needle, i + 1);
        let rest = occurrences_from(img, needle, i + 1);
        if img.bytes@.subrange(i, i + needle.len()) == needle {
            let s = seq![(img.base + i) as usize] + rest;
            assert(s == occurrences_from(img, needle, i));
            assert forall|k: int| 0 <= k < s.len() implies img.base <= #[trigger] s[k] && s[k] + needle.len()
                <= img.base + img.bytes@.len() by {
                if k > 0 {
                    assert(s[k] == rest[k - 1]);
                }
            }
        }
    }
}

impl Image {
    fn locator_ok_exec(&self, locator: usize) -> (r: bool)
        requires
            image_fits(*self),
            locator <= self.base + self.bytes@.len(),
        ensures
            r == locator_ok(*self, locator as int),
    {
        if self.word(locator) != Some(0usize) || self.word(locator + 4) != Some(0usize)
            || self.word(locator + 8) != Some(0usize) {
            return false;
        }
        match self.word(locator + 16) {
            Some(p) => self.read(p, 16).is_some(),
            None => false,
        }
    }

    fn slots_ok_exec(&self, table: usize, slots: usize) -> (r: bool)
        requires
            image_fits(*self),
            table <= self.base + self.bytes@.len() + 4,
        ensures
            r == slots_ok(*self, table as int, slots as int),
    {
        let mut s: usize = 0;
        while s < slots
            invariant
                s <= slots,
                image_fits(*self),
                table + s * 4 <= self.base + self.bytes@.len() + 4,
                forall|j: int| 0 <= j < s ==> match #[trigger] image_word(*self, table + j * 4) {
                    Some(p) => image_code(*self, p),
                    None => false,
                },
            decreases slots - s,
        {
            let ok = match self.word(table + s * 4) {
                Some(p) => self.code(p),
                None => false,
            };
            if !ok {
                assert(!match image_word(*self, table + s * 4) {
                    Some(p) => image_code(*self, p),
                    None => false,
                });
                return false;
            }
            s += 1;
        }
        true
    }

    fn locator_tables_exec(&self, locator: usize, slots: usize) -> (r: Vec<usize>)
        requires
            image_fits(*self),
        ensures
            r@ == locator_tables(*self, references_to(*self, locator as int), slots as int, 0),
    {
        let refs = self.references(locator);
        proof {
            lemma_occurrences_in_image(*self, le_bytes(locator as u32), 0);
        }
        let mut out: Vec<usize> = Vec::new();
        let mut i: usize = 0;
        while i < refs.len()
            invariant
                i <= refs@.len(),
                image_fits(*self),
                    refs@ == references_to(*self, locator as int),
                forall|k: int| 0 <= k < refs@.len() ==> #[trigger] refs@[k] + 4 <= self.base + self.bytes@.len(),
                locator_tables(*self, refs@, slots as int, 0) == out@ + locator_tables(*self, refs@, slots as int, i as int),
            decreases refs.len() - i,
        {
            let ghost before = out@;
            let table = refs[i] + 4;
            if self.slots_ok_exec(table, slots) {
                out.push(table);
                assert(before + (seq![(refs@[i as int] + 4) as usize] + locator_tables(*self, refs@, slots as int, i + 1))
                    =~= out@ + locator_tables(*self, refs@, slots as int, i + 1));
            }
            i += 1;
        }
        assert(out@ + locator_tables(*self, refs@, slots as int, i as int) =~= out@);
        out
    }

    fn descriptor_tables_exec(&self, descriptor: usize, slots: usize) -> (r: Vec<usize>)
        requires
            image_fits(*self),
        ensures
            r@ == descriptor_tables(*self, references_to(*self, descriptor as int), slots as int, 0),
    {
        let fields = self.references(descriptor);
        proof {
            lemma_occurrences_in_image(*self, le_bytes(descriptor as u32), 0);
        }
        let mut out: Vec<usize> = Vec::new();
        let mut i: usize = 0;
        while i < fields.len()
            invariant
                i <= fields@.len(),
                image_fits(*self),
                    fields@ == references_to(*self, descriptor as int),
                forall|k: int| 0 <= k < fields@.len() ==> #[trigger] fields@[k] + 4 <= self.base + self.bytes@.len(),
                descriptor_tables(*self, fields@, slots as int, 0) == out@ + descriptor_tables(*self, fields@, slots as int,
                    i as int),
            decreases fields.len() - i,
        {
            let ghost before = out@;
            let field = fields[i];
            if field >= 12 && self.locator_ok_exec(field - 12) {
                let more = self.locator_tables_exec(field - 12, slots);
                crate::chars::append_all(&mut out, &more);
                assert(before + (more@ + descriptor_tables(*self, fields@, slots as int, i + 1))
                    =~= out@ + descriptor_tables(*self, fields@, slots as int, i + 1));
            }
            i += 1;
        }
        assert(out@ + descriptor_tables(*self, fields@, slots as int, i as int) =~= out@);
        out
    }

    /// The virtual table of the class whose decorated name is `class_name`, found through its
    /// type descriptor and object locator: the one table whose first `slots` entries all point
    /// into code. `None` when there is no such table or more than one.
    #[verifier::loop_isolation(false)]
    pub fn named_table_slots(&self, class_name: &[u8], slots: usize) -> (r: Option<usize>)
        requires
            image_fits(*self),
            class_name@.len() > 0,
        ensures
            r == table_named(*self, class_name@, slots as int),
    {
        let names = self.occurrences(class_name);
        let mut cands: Vec<usize> = Vec::new();
        let mut i: usize = 0;
        while i < names.len()
            invariant
                i <= names@.len(),
                image_fits(*self),
                    names@ == occurrences_from(*self, class_name@, 0),
                name_tables(*self, names@, slots as int, 0) == (match name_tables(*self, names@, slots as int, i as int) {
                    Some(rest) => Some(cands@ + rest),
                    None => None::<Seq<usize>>,
                }),
            decreases names.len() - i,
        {
            let name = names[i];
            if name < 8 {
                return None;
            }
            let more = self.descriptor_tables_exec(name - 8, slots);
            let ghost before = cands@;
            crate::chars::append_all(&mut cands, &more);
            proof {
                assert forall|rest: Seq<usize>| before + (more@ + rest) == #[trigger] (cands@ + rest) by {
                    assert(before + (more@ + rest) =~= cands@ + rest);
                }
            }
            i += 1;
        }
        assert(cands@ + Seq::<usize>::empty() =~= cands@);
        sole_entry(&cands)
    }

    /// The table of a text object class: four code pointers.
    pub fn named_table(&self, class_name: &[u8]) -> (r: Option<usize>)
        requires
            image_fits(*self),
            class_name@.len() > 0,
        ensures
            r == table_named(*self, class_name@, 4),
    {
        self.named_table_slots(class_name, 4)
    }
}

} // verus!
