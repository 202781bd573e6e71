//! How a file is announced to the shell, and which formats are offered.

use vstd::prelude::*;
use vstd::string::*;

use crate::clipboard_files::listing::ClipFile;
use crate::text::chars_of;

verus! {

/// The attributes are given.
pub const FD_ATTRIBUTES: u32 = 0x0000_0004;

/// The size is given; the shell sets the file's room aside by it.
pub const FD_FILESIZE: u32 = 0x0000_0040;

/// The shell shows its progress.
pub const FD_PROGRESSUI: u32 = 0x0000_4000;

/// All three.
pub const FD_ALL: u32 = 0x0000_4044;

pub const FILE_ATTRIBUTE_DIRECTORY: u32 = 0x0000_0010;

pub const FILE_ATTRIBUTE_NORMAL: u32 = 0x0000_0080;

/// How wide the field for the name is, its end mark included.
pub const NAME_WIDTH: usize = 260;

/// How a file is announced to the shell.
pub struct FileDescriptor {
    pub flags: u32,
    pub attributes: u32,
    pub size_high: u32,
    pub size_low: u32,
    pub name: Vec<u16>,
}

/// A character in UTF-16.
pub open spec fn utf16_char(c: char) -> Seq<u16> {
    let v = c as int;
    if v < 0x10000 {
        seq![v as u16]
    } else {
        seq![
            (0xd800 + (v - 0x10000) / 0x400) as u16,
            (0xdc00 + (v - 0x10000) % 0x400) as u16,
        ]
    }
}

/// A text in UTF-16.
pub open spec fn utf16(s: Seq<char>) -> Seq<u16>
    decreases s.len(),
{
    if s.len() == 0 {
        Seq::empty()
    } else {
        utf16(s.drop_last()) + utf16_char(s.last())
    }
}

/// A name in its field: as much of it as fits before the end mark, and zeroes.
pub open spec fn name_field(name: Seq<char>) -> Seq<u16> {
    let units = utf16(name);
    Seq::new(
        NAME_WIDTH as nat,
        |i: int|
            if i < NAME_WIDTH - 1 && i < units.len() {
                units[i]
            } else {
                0u16
            },
    )
}

fn push_utf16(out: &mut Vec<u16>, c: char)
    ensures
        final(out)@ == old(out)@ + utf16_char(c),
{
    let v: u32 = c as u32;
    if v < 0x10000 {
        out.push(v as u16);
    } else {
        out.push((0xd800 + (v - 0x10000) / 0x400) as u16);
        out.push((0xdc00 + (v - 0x10000) % 0x400) as u16);
    }
    assert(out@ =~= old(out)@ + utf16_char(c));
}

fn utf16_of(s: &str) -> (r: Vec<u16>)
    ensures
        r@ == utf16(s@),
{
    let chars: Vec<char> = chars_of(s);
    let mut out: Vec<u16> = Vec::new();
    let mut i: usize = 0;
    while i < chars.len()
        invariant
            i <= chars.len(),
            chars@ == s@,
            out@ == utf16(s@.take(i as int)),
        decreases chars.len() - i,
    {
        assert(s@.take(i + 1).drop_last() =~= s@.take(i as int));
        push_utf16(&mut out, chars[i]);
        i += 1;
    }
    assert(s@.take(i as int) =~= s@);
    out
}

/// Whether this is how a file is announced.
pub open spec fn describes(descriptor: &FileDescriptor, file: &ClipFile) -> bool {
    &&& descriptor.flags == FD_ALL
    &&& descriptor.attributes == if file.is_dir {
        FILE_ATTRIBUTE_DIRECTORY
    } else {
        FILE_ATTRIBUTE_NORMAL
    }
    &&& descriptor.size_high == file.size / 0x1_0000_0000
    &&& descriptor.size_low == file.size % 0x1_0000_0000
    &&& descriptor.name@ == name_field(file.name@)
}

/// How a file is announced: with its size and with progress, marked as a file
/// or a directory, and under as much of its name as fits.
pub fn descriptor_for(file: &ClipFile) -> (r: FileDescriptor)
    ensures
        describes(&r, file),
{
    let units: Vec<u16> = utf16_of(file.name.as_str());
    let mut name: Vec<u16> = Vec::new();
    let mut i: usize = 0;
    while i < NAME_WIDTH
        invariant
            i <= NAME_WIDTH,
            units@ == utf16(file.name@),
            name@ == name_field(file.name@).take(i as int),
        decreases NAME_WIDTH - i,
    {
        name.push(
            if i < NAME_WIDTH - 1 && i < units.len() {
                units[i]
            } else {
                0
            },
        );
        i += 1;
        assert(name@ =~= name_field(file.name@).take(i as int));
    }
    assert(name@ =~= name_field(file.name@));
    FileDescriptor {
        flags: FD_ALL,
        attributes: if file.is_dir {
            FILE_ATTRIBUTE_DIRECTORY
        } else {
            FILE_ATTRIBUTE_NORMAL
        },
        size_high: (file.size / 0x1_0000_0000) as u32,
        size_low: (file.size % 0x1_0000_0000) as u32,
        name,
    }
}

/// The size of a file survives being split into two halves.
pub proof fn law_the_size_survives_the_split(descriptor: &FileDescriptor, file: &ClipFile)
    requires
        describes(descriptor, file),
    ensures
        descriptor.size_high * 0x1_0000_0000 + descriptor.size_low == file.size,
{
}

/// The name always ends inside its field, and a name that fits is there whole.
pub proof fn law_the_name_is_terminated(descriptor: &FileDescriptor, file: &ClipFile)
    requires
        describes(descriptor, file),
    ensures
        descriptor.name@.len() == NAME_WIDTH,
        descriptor.name@[NAME_WIDTH - 1] == 0,
        utf16(file.name@).len() < NAME_WIDTH ==> descriptor.name@.take(
            utf16(file.name@).len() as int,
        ) == utf16(file.name@),
{
    let units = utf16(file.name@);
    if units.len() < NAME_WIDTH {
        assert(descriptor.name@.take(units.len() as int) =~= units);
    }
}

/// The flags that are set announce the attributes, the size and the progress.
pub proof fn law_the_flags_announce_size_and_progress()
    ensures
        FD_ALL & FD_ATTRIBUTES == FD_ATTRIBUTES,
        FD_ALL & FD_FILESIZE == FD_FILESIZE,
        FD_ALL & FD_PROGRESSUI == FD_PROGRESSUI,
        FD_ALL == FD_ATTRIBUTES | FD_FILESIZE | FD_PROGRESSUI,
{
    assert(0x4044u32 & 0x4u32 == 0x4u32 && 0x4044u32 & 0x40u32 == 0x40u32 && 0x4044u32 & 0x4000u32
        == 0x4000u32 && 0x4044u32 == 0x4u32 | 0x40u32 | 0x4000u32) by (bit_vector);
}

// The block of descriptors.

/// How many bytes one descriptor takes.
pub const DESCRIPTOR_BYTES: usize = 592;

/// A number in four bytes, the lowest first.
pub open spec fn four_bytes(n: u32) -> Seq<u8> {
    seq![
        (n % 256) as u8,
        (n / 256 % 256) as u8,
        (n / 65_536 % 256) as u8,
        (n / 16_777_216) as u8,
    ]
}

/// So many zeroes.
pub open spec fn zeroes(count: nat) -> Seq<u8> {
    Seq::new(count, |i: int| 0u8)
}

/// Units of text in two bytes each, the lower first.
pub open spec fn unit_bytes(units: Seq<u16>) -> Seq<u8> {
    Seq::new(
        2 * units.len(),
        |i: int|
            if i % 2 == 0 {
                (units[i / 2] % 256) as u8
            } else {
                (units[i / 2] / 256) as u8
            },
    )
}

/// The bytes of the descriptor of a file. What is not announced, an identity, a
/// place on the screen and the times, is left zero.
pub open spec fn descriptor_bytes(file: &ClipFile) -> Seq<u8> {
    let attributes = if file.is_dir {
        FILE_ATTRIBUTE_DIRECTORY
    } else {
        FILE_ATTRIBUTE_NORMAL
    };
    four_bytes(FD_ALL) + zeroes(32) + four_bytes(attributes) + zeroes(24) + four_bytes(
        (file.size / 0x1_0000_0000) as u32,
    ) + four_bytes((file.size % 0x1_0000_0000) as u32) + unit_bytes(name_field(file.name@))
}

/// The block that announces files: how many they are, and the descriptors of the
/// first `n` of them.
pub open spec fn block_bytes(files: Seq<ClipFile>, n: nat) -> Seq<u8>
    decreases n,
{
    if n == 0 {
        four_bytes((files.len() % 0x1_0000_0000) as u32)
    } else {
        block_bytes(files, (n - 1) as nat) + descriptor_bytes(&files[n - 1])
    }
}

fn push_four(out: &mut Vec<u8>, n: u32)
    ensures
        final(out)@ == old(out)@ + four_bytes(n),
{
    out.push((n % 256) as u8);
    out.push((n / 256 % 256) as u8);
    out.push((n / 65_536 % 256) as u8);
    out.push((n / 16_777_216) as u8);
    assert(out@ =~= old(out)@ + four_bytes(n));
}

fn push_zeroes(out: &mut Vec<u8>, count: usize)
    ensures
        final(out)@ == old(out)@ + zeroes(count as nat),
{
    let mut i: usize = 0;
    assert(out@ =~= old(out)@ + zeroes(0));
    while i < count
        invariant
            i <= count,
            out@ == old(out)@ + zeroes(i as nat),
        decreases count - i,
    {
        out.push(0);
        i += 1;
        assert(out@ =~= old(out)@ + zeroes(i as nat));
    }
}

fn push_units(out: &mut Vec<u8>, units: &Vec<u16>)
    ensures
        final(out)@ == old(out)@ + unit_bytes(units@),
{
    let mut i: usize = 0;
    assert(out@ =~= old(out)@ + unit_bytes(units@).take(0));
    while i < units.len()
        invariant
            i <= units.len(),
            out@ == old(out)@ + unit_bytes(units@).take(2 * i),
        decreases units.len() - i,
    {
        let unit: u16 = units[i];
        out.push((unit % 256) as u8);
        out.push((unit / 256) as u8);
        assert(unit_bytes(units@).take(2 * (i + 1)) =~= unit_bytes(units@).take(2 * i).push(
            (unit % 256) as u8,
        ).push((unit / 256) as u8));
        i += 1;
    }
    assert(unit_bytes(units@).take(2 * i) =~= unit_bytes(units@));
}

fn push_descriptor(out: &mut Vec<u8>, file: &ClipFile)
    ensures
        final(out)@ == old(out)@ + descriptor_bytes(file),
{
    let descriptor: FileDescriptor = descriptor_for(file);
    push_four(out, descriptor.flags);
    push_zeroes(out, 32);
    push_four(out, descriptor.attributes);
    push_zeroes(out, 24);
    push_four(out, descriptor.size_high);
    push_four(out, descriptor.size_low);
    push_units(out, &descriptor.name);
    assert(out@ =~= old(out)@ + descriptor_bytes(file));
}

/// The block that announces files to the shell: how many they are, then their
/// descriptors, packed one after the other.
pub fn descriptor_block(files: &Vec<ClipFile>) -> (r: Vec<u8>)
    ensures
        r@ == block_bytes(files@, files@.len()),
{
    let mut out: Vec<u8> = Vec::new();
    let count: u64 = files.len() as u64;
    push_four(&mut out, (count % 0x1_0000_0000) as u32);
    assert(out@ =~= block_bytes(files@, 0));
    let mut i: usize = 0;
    while i < files.len()
        invariant
            i <= files.len(),
            out@ == block_bytes(files@, i as nat),
        decreases files.len() - i,
    {
        push_descriptor(&mut out, &files[i]);
        i += 1;
    }
    out
}

proof fn lemma_block_length(files: Seq<ClipFile>, n: nat)
    ensures
        block_bytes(files, n).len() == 4 + n * DESCRIPTOR_BYTES,
    decreases n,
{
    if n > 0 {
        lemma_block_length(files, (n - 1) as nat);
    }
}

/// The descriptors stand packed behind the count, in the order of the files: each at
/// its own place, and nothing after the last.
pub proof fn law_descriptors_are_packed(files: Seq<ClipFile>, n: nat, i: int)
    requires
        0 <= i < n <= files.len(),
    ensures
        block_bytes(files, n).len() == 4 + n * DESCRIPTOR_BYTES,
        block_bytes(files, n).subrange(4 + i * DESCRIPTOR_BYTES, 4 + (i + 1) * DESCRIPTOR_BYTES)
            == descriptor_bytes(&files[i]),
    decreases n,
{
    lemma_block_length(files, n);
    lemma_block_length(files, (n - 1) as nat);
    let whole = block_bytes(files, n);
    let before = block_bytes(files, (n - 1) as nat);
    let from = 4 + i * DESCRIPTOR_BYTES;
    let to = 4 + (i + 1) * DESCRIPTOR_BYTES;
    if i == n - 1 {
        assert(whole.subrange(from, to) =~= descriptor_bytes(&files[i]));
    } else {
        law_descriptors_are_packed(files, (n - 1) as nat, i);
        assert(whole.subrange(from, to) =~= before.subrange(from, to));
    }
}

// The formats that are offered.

/// A format of the data that a file list is offered in.
#[derive(Debug, Clone, Copy, PartialEq, Eq, Structural)]
pub enum DataFormat {
    /// The descriptors of all files.
    Descriptors,
    /// The contents of one file.
    Contents,
    /// Any other.
    Other,
}

/// What a request for data is answered with.
#[derive(Debug, Clone, Copy, PartialEq, Eq, Structural)]
pub enum DataAnswer {
    Descriptors,
    Stream { index: u32, size: u64 },
    InvalidArgument,
    UnknownFormat,
}

/// What a request for data is answered with: the list of descriptors, the
/// stream of one file, or a refusal. A directory has no contents.
pub open spec fn data_answer(files: Seq<ClipFile>, format: DataFormat, index: i32) -> DataAnswer {
    match format {
        DataFormat::Descriptors => DataAnswer::Descriptors,
        DataFormat::Contents => if 0 <= index < files.len() && !files[index as int].is_dir {
            DataAnswer::Stream { index: index as u32, size: files[index as int].size }
        } else {
            DataAnswer::InvalidArgument
        },
        DataFormat::Other => DataAnswer::UnknownFormat,
    }
}

/// What a request for data is answered with.
pub fn get_data(files: &Vec<ClipFile>, format: DataFormat, index: i32) -> (r: DataAnswer)
    ensures
        r == data_answer(files@, format, index),
{
    match format {
        DataFormat::Descriptors => DataAnswer::Descriptors,
        DataFormat::Contents => {
            if index < 0 || index as usize >= files.len() {
                return DataAnswer::InvalidArgument;
            }
            let at: usize = index as usize;
            if files[at].is_dir {
                DataAnswer::InvalidArgument
            } else {
                DataAnswer::Stream { index: index as u32, size: files[at].size }
            }
        },
        DataFormat::Other => DataAnswer::UnknownFormat,
    }
}

/// Whether data can be had in a format.
pub fn query_get_data(format: DataFormat) -> (r: bool)
    ensures
        r == (format != DataFormat::Other),
{
    match format {
        DataFormat::Other => false,
        _ => true,
    }
}

/// How many formats are offered.
pub const FORMATS: usize = 2;

/// The formats that are offered, in order: the descriptors come first.
pub open spec fn offered() -> Seq<DataFormat> {
    seq![DataFormat::Descriptors, DataFormat::Contents]
}

/// A cursor over the formats that are offered.
#[derive(Debug, Clone, Copy, PartialEq, Eq, Structural)]
pub struct FormatEnumerator {
    pub index: usize,
}

/// How many formats are left from a position on.
pub open spec fn formats_left(index: int) -> int {
    if index < FORMATS {
        FORMATS - index
    } else {
        0
    }
}

impl FormatEnumerator {
    /// A cursor at a position.
    pub fn new(start: usize) -> (r: FormatEnumerator)
        ensures
            r.index == start,
    {
        FormatEnumerator { index: start }
    }

    /// The formats that are offered.
    pub fn formats() -> (r: Vec<DataFormat>)
        ensures
            r@ == offered(),
            r@.len() == FORMATS,
    {
        let all: Vec<DataFormat> = vec![DataFormat::Descriptors, DataFormat::Contents];
        assert(all@ =~= offered());
        all
    }

    /// Hands out the next formats, as many as are asked for and left, and says whether
    /// that is as many as were asked for.
    pub fn next(&mut self, count: u32) -> (r: (Vec<DataFormat>, bool))
        ensures
            r.0@.len() == if count < formats_left(old(self).index as int) {
                count as int
            } else {
                formats_left(old(self).index as int)
            },
            forall|i: int|
                0 <= i < r.0@.len() ==> #[trigger] r.0@[i] == offered()[old(self).index + i],
            r.1 == (r.0@.len() == count),
            final(self).index == old(self).index + r.0@.len(),
    {
        let all: Vec<DataFormat> = FormatEnumerator::formats();
        let start: usize = self.index;
        let left: usize = all.len().saturating_sub(start);
        let available: usize = if (count as usize) < left {
            count as usize
        } else {
            left
        };
        let mut handed: Vec<DataFormat> = Vec::new();
        while handed.len() < available
            invariant
                all@ == offered(),
                all@.len() == FORMATS,
                available > 0 ==> start + available <= FORMATS,
                handed.len() <= available,
                forall|i: int|
                    0 <= i < handed@.len() ==> #[trigger] handed@[i] == offered()[start + i],
            decreases available - handed.len(),
        {
            handed.push(all[start + handed.len()]);
        }
        self.index = start + available;
        (handed, available == count as usize)
    }

    /// Passes over some formats, and says whether there were as many.
    pub fn skip(&mut self, count: u32) -> (r: bool)
        ensures
            r == (old(self).index + count <= FORMATS),
            final(self).index == if old(self).index + count <= FORMATS {
                old(self).index + count
            } else {
                FORMATS as int
            },
    {
        let next: usize = self.index.saturating_add(count as usize);
        if next <= FORMATS {
            self.index = next;
            true
        } else {
            self.index = FORMATS;
            false
        }
    }

    /// Goes back to the first format.
    pub fn reset(&mut self)
        ensures
            final(self).index == 0,
    {
        self.index = 0;
    }

    /// A cursor that goes on from where this one is.
    pub fn duplicate(&self) -> (r: FormatEnumerator)
        ensures
            r == *self,
    {
        FormatEnumerator { index: self.index }
    }
}

// Laws of the bytes.

/// A character is one unit of its value, or a pair of which the first carries its upper
/// bits and the second its lower ten.
pub proof fn law_a_character_reads_back_from_its_units(c: char)
    ensures
        (c as int) < 0x10000 ==> utf16_char(c).len() == 1 && utf16_char(c)[0] == c as int,
        c as int >= 0x10000 ==> {
            let units = utf16_char(c);
            &&& units.len() == 2
            &&& 0xd800 <= units[0] < 0xdc00
            &&& 0xdc00 <= units[1] < 0xe000
            &&& 0x10000 + (units[0] - 0xd800) * 0x400 + (units[1] - 0xdc00) == c as int
        },
{
}

/// The units of texts put together are the units of the texts.
pub proof fn law_units_follow_text_by_text(a: Seq<char>, b: Seq<char>)
    ensures
        utf16(a + b) == utf16(a) + utf16(b),
        utf16(Seq::<char>::empty()) == Seq::<u16>::empty(),
    decreases b.len(),
{
    if b.len() == 0 {
        assert(a + b =~= a);
        assert(utf16(a) + utf16(b) =~= utf16(a));
    } else {
        law_units_follow_text_by_text(a, b.drop_last());
        assert((a + b).drop_last() =~= a + b.drop_last());
        assert(utf16(a) + (utf16(b.drop_last()) + utf16_char(b.last())) =~= utf16(a) + utf16(
            b.drop_last(),
        ) + utf16_char(b.last()));
    }
}

/// A text of one character has the units of the character.
pub proof fn law_one_character_has_its_own_units(c: char)
    ensures
        utf16(seq![c]) == utf16_char(c),
{
    assert(seq![c].drop_last() =~= Seq::<char>::empty());
    law_units_follow_text_by_text(Seq::empty(), Seq::empty());
    assert(seq![c].last() == c);
    assert(utf16(seq![c]) == utf16(seq![c].drop_last()) + utf16_char(c));
    assert(Seq::<u16>::empty() + utf16_char(c) =~= utf16_char(c));
}

/// In the field of a name the name stands first, cut after 259 units, and zeroes fill the
/// rest.
pub proof fn law_a_name_stands_in_its_field(name: Seq<char>, i: int)
    requires
        0 <= i < 260,
    ensures
        name_field(name).len() == 260,
        i < 259 && i < utf16(name).len() ==> name_field(name)[i] == utf16(name)[i],
        i == 259 || i >= utf16(name).len() ==> name_field(name)[i] == 0,
{
}

/// The number that four bytes hold, the lowest first.
pub open spec fn number_at(bytes: Seq<u8>, at: int) -> int {
    bytes[at] + 0x100 * bytes[at + 1] + 0x1_0000 * bytes[at + 2] + 0x100_0000 * bytes[at + 3]
}

proof fn lemma_four_read_back(n: u32)
    ensures
        number_at(four_bytes(n), 0) == n,
{
    let x = n as int;
    assert(x == x % 256 + 256 * (x / 256 % 256) + 65_536 * (x / 65_536 % 256) + 16_777_216 * (x
        / 16_777_216)) by {
        assert(x / 65_536 == x / 256 / 256);
        assert(x / 16_777_216 == x / 65_536 / 256);
    }
}

/// A descriptor is 592 bytes: the flags at its start, the attributes at 36, the halves of
/// the size at 64 and 68, and the units of the name from 72 on, two bytes each; what lies
/// between is zero.
pub proof fn law_a_descriptor_reads_back(file: &ClipFile, i: int)
    requires
        0 <= i < 592,
    ensures
        descriptor_bytes(file).len() == 592,
        number_at(descriptor_bytes(file), 0) == 0x4044,
        number_at(descriptor_bytes(file), 36) == (if file.is_dir {
            0x10int
        } else {
            0x80
        }),
        number_at(descriptor_bytes(file), 64) * 0x1_0000_0000 + number_at(
            descriptor_bytes(file),
            68,
        ) == file.size,
        4 <= i < 36 || 40 <= i < 64 ==> descriptor_bytes(file)[i] == 0,
        72 <= i && i % 2 == 0 ==> descriptor_bytes(file)[i] + 256 * descriptor_bytes(file)[i + 1]
            == name_field(file.name@)[(i - 72) / 2],
{
    let bytes = descriptor_bytes(file);
    let attributes = if file.is_dir {
        FILE_ATTRIBUTE_DIRECTORY
    } else {
        FILE_ATTRIBUTE_NORMAL
    };
    let high = (file.size / 0x1_0000_0000) as u32;
    let low = (file.size % 0x1_0000_0000) as u32;
    lemma_four_read_back(FD_ALL);
    lemma_four_read_back(attributes);
    lemma_four_read_back(high);
    lemma_four_read_back(low);
    assert(forall|k: int| 0 <= k < 4 ==> bytes[k] == #[trigger] four_bytes(FD_ALL)[k]);
    assert(forall|k: int| 0 <= k < 4 ==> bytes[36 + k] == #[trigger] four_bytes(attributes)[k]);
    assert(forall|k: int| 0 <= k < 4 ==> bytes[64 + k] == #[trigger] four_bytes(high)[k]);
    assert(forall|k: int| 0 <= k < 4 ==> bytes[68 + k] == #[trigger] four_bytes(low)[k]);
    if 72 <= i && i % 2 == 0 {
        let units = name_field(file.name@);
        assert(bytes[i] == unit_bytes(units)[i - 72]);
        assert(bytes[i + 1] == unit_bytes(units)[i - 71]);
        assert((i - 71) / 2 == (i - 72) / 2);
    }
}

/// The block starts with the number of the files.
pub proof fn law_a_block_starts_with_its_count(files: Seq<ClipFile>, n: nat)
    requires
        n <= files.len() < 0x1_0000_0000,
    ensures
        block_bytes(files, n).len() >= 4,
        number_at(block_bytes(files, n), 0) == files.len(),
    decreases n,
{
    lemma_four_read_back((files.len() % 0x1_0000_0000) as u32);
    if n > 0 {
        law_a_block_starts_with_its_count(files, (n - 1) as nat);
        let before = block_bytes(files, (n - 1) as nat);
        assert(forall|k: int| 0 <= k < 4 ==> #[trigger] block_bytes(files, n)[k] == before[k]);
    }
}

/// Contents are had of every file, with its own size, and of nothing else: of no folder
/// and of no number that has no file. The descriptors are always had.
pub proof fn law_only_files_have_contents(files: Seq<ClipFile>, index: i32)
    ensures
        data_answer(files, DataFormat::Descriptors, index) == DataAnswer::Descriptors,
        data_answer(files, DataFormat::Other, index) == DataAnswer::UnknownFormat,
        0 <= index < files.len() && !files[index as int].is_dir ==> data_answer(
            files,
            DataFormat::Contents,
            index,
        ) == (DataAnswer::Stream { index: index as u32, size: files[index as int].size }),
        !(0 <= index < files.len()) ==> data_answer(files, DataFormat::Contents, index)
            == DataAnswer::InvalidArgument,
        0 <= index < files.len() && files[index as int].is_dir ==> data_answer(
            files,
            DataFormat::Contents,
            index,
        ) == DataAnswer::InvalidArgument,
{
}

/// From a position on, the formats behind it are left.
pub proof fn law_the_formats_behind_are_left(index: int)
    requires
        0 <= index,
    ensures
        index <= 2 ==> formats_left(index) == offered().skip(index).len(),
        index > 2 ==> formats_left(index) == 0,
{
}

} // verus!
