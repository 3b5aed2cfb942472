//! Loading RISC-U ELF64 images.
//!
//! A RISC-U binary is a static, little-endian ELF64 executable with exactly
//! two loadable segments: the code, which may only be executed, and the data,
//! which may be read and written but not executed.

use vstd::prelude::*;
use vstd::slice::slice_to_vec;
use crate::le::{le_u32, le_u64, read_u32, read_u64};
use crate::{is_decoder, DecodingError};

verus! {

/// The error of `goblin`'s parsers.
#[verifier::external_type_specification]
#[verifier::external_body]
pub struct ExGoblinError(goblin::error::Error);

/// The error of the standard library's input and output.
#[verifier::external_type_specification]
#[verifier::external_body]
pub struct ExIoError(std::io::Error);

/// ELF image metadata.
#[derive(Clone, Debug)]
pub struct ElfMetadata {
    /// The entry virtual address.
    pub entry_address: u64,
    pub code_length: u64,
}

/// The segments of a RISC-U binary as they stand in the file.
#[derive(Clone, Debug)]
pub struct RiscuProgram {
    pub code_segment: Vec<u8>,
    pub data_segment: Vec<u8>,
    pub entry_address: u64,
}

/// The segments of a RISC-U binary, the code decoded into instructions of
/// type `I` and the data into 64-bit words.
#[derive(Clone, Debug)]
pub struct DecodedRiscuProgram<I> {
    pub code_segment: Vec<I>,
    pub data_segment: Vec<u64>,
    pub entry_address: u64,
}

/// Why a file could not be loaded as a RISC-U binary.
#[derive(Debug)]
pub enum ElfLoaderError {
    /// The file could not be read.
    CouldNotReadFile(std::io::Error),
    /// The bytes are no ELF image.
    InvalidElf(goblin::error::Error),
    /// The ELF image does not have the shape of a RISC-U binary; the text
    /// names the constraint that it breaks.
    InvalidRiscu(&'static str),
    /// An instruction of the code segment could not be decoded.
    DecodingError(DecodingError),
}

/// The text of the error for an image that is a library, is not 64-bit or is
/// not little-endian.
pub const NOT_STATIC_EXECUTABLE: &'static str =
    "has to be an executable, 64bit, static, little endian binary";

/// The text of the error for an image that does not have two loadable
/// segments.
pub const WRONG_SEGMENT_COUNT: &'static str = "must have 2 program segments";

/// The text of the error for an image without a segment that may only be
/// executed.
pub const CODE_SEGMENT_MISSING: &'static str = "code segment (must be executable only) is missing";

/// The text of the error for an image without a segment that may only be
/// read and written.
pub const DATA_SEGMENT_MISSING: &'static str =
    "data segment (must be readable and writable only) is missing";

/// The text of the error for a code segment whose length is no multiple of
/// four: it cannot be cut into instruction words exactly.
pub const CODE_NOT_WHOLE_WORDS: &'static str = "code segment must be a whole number of 4 byte words";

/// The text of the error for an image with a code or data segment that the
/// file does not hold in full.
pub const SEGMENT_OUTSIDE_FILE: &'static str = "code or data segment lies outside of the file";

/// The type of a program header that marks a segment to be loaded.
pub const PT_LOAD: u32 = 1;

/// The flag of a segment that may be executed.
pub const PF_X: u32 = 1;

/// The flag of a segment that may be written.
pub const PF_W: u32 = 2;

/// The flag of a segment that may be read.
pub const PF_R: u32 = 4;

/// What the loader reads of a program header.
#[derive(Clone, Copy, Debug)]
pub struct ProgramHeader {
    pub p_type: u32,
    pub p_flags: u32,
    pub p_offset: u64,
    pub p_filesz: u64,
}

/// The two segments of a RISC-U binary.
#[derive(Clone, Copy, Debug, PartialEq, Eq, Structural)]
pub enum Segment {
    /// May be executed, but neither read nor written.
    Code,
    /// May be read and written, but not executed.
    Data,
}

impl ProgramHeader {
    /// The flag of execution is set.
    pub open spec fn spec_is_executable(&self) -> bool {
        self.p_flags & PF_X != 0
    }

    /// The flag of writing is set.
    pub open spec fn spec_is_write(&self) -> bool {
        self.p_flags & PF_W != 0
    }

    /// The flag of reading is set.
    pub open spec fn spec_is_read(&self) -> bool {
        self.p_flags & PF_R != 0
    }

    /// The offset in the file at which the segment starts.
    pub open spec fn file_start(&self) -> int {
        self.p_offset as int
    }

    /// The offset in the file at which the segment ends: its start and its
    /// size, added up and cut at the largest `u64`.
    pub open spec fn file_end(&self) -> int {
        self.p_offset.saturating_add(self.p_filesz) as int
    }

    /// The header of a loadable segment with the permissions of `segment`.
    pub open spec fn spec_describes(&self, segment: Segment) -> bool {
        &&& self.p_type == PT_LOAD
        &&& match segment {
            Segment::Code => !self.spec_is_write() && !self.spec_is_read()
                && self.spec_is_executable(),
            Segment::Data => self.spec_is_write() && self.spec_is_read()
                && !self.spec_is_executable(),
        }
    }

    /// Whether the segment may be executed.
    #[verifier::when_used_as_spec(spec_is_executable)]
    pub fn is_executable(&self) -> (b: bool)
        ensures
            b == self.spec_is_executable(),
    {
        self.p_flags & PF_X != 0
    }

    /// Whether the segment may be written.
    #[verifier::when_used_as_spec(spec_is_write)]
    pub fn is_write(&self) -> (b: bool)
        ensures
            b == self.spec_is_write(),
    {
        self.p_flags & PF_W != 0
    }

    /// Whether the segment may be read.
    #[verifier::when_used_as_spec(spec_is_read)]
    pub fn is_read(&self) -> (b: bool)
        ensures
            b == self.spec_is_read(),
    {
        self.p_flags & PF_R != 0
    }

    /// Whether this is the header of a loadable segment with the permissions
    /// of `segment`.
    #[verifier::when_used_as_spec(spec_describes)]
    pub fn describes(&self, segment: Segment) -> (b: bool)
        ensures
            b == self.spec_describes(segment),
    {
        self.p_type == PT_LOAD && match segment {
            Segment::Code => !self.is_write() && !self.is_read() && self.is_executable(),
            Segment::Data => self.is_write() && self.is_read() && !self.is_executable(),
        }
    }
}

/// What the loader reads of a parsed ELF image.
#[derive(Clone, Debug)]
pub struct ElfLayout {
    /// Whether the image is a shared object.
    pub is_lib: bool,
    /// Whether the image is of the 64-bit class.
    pub is_64: bool,
    /// Whether the image is little-endian.
    pub little_endian: bool,
    /// The entry virtual address.
    pub entry: u64,
    /// The program headers, in the order of the file.
    pub program_headers: Vec<ProgramHeader>,
}

/// An `ElfLayout` as a mathematical value.
pub struct ElfLayoutView {
    pub is_lib: bool,
    pub is_64: bool,
    pub little_endian: bool,
    pub entry: u64,
    pub program_headers: Seq<ProgramHeader>,
}

impl View for ElfLayout {
    type V = ElfLayoutView;

    open spec fn view(&self) -> ElfLayoutView {
        ElfLayoutView {
            is_lib: self.is_lib,
            is_64: self.is_64,
            little_endian: self.little_endian,
            entry: self.entry,
            program_headers: self.program_headers@,
        }
    }
}

/// What `goblin::elf::Elf::parse` makes of a file: nothing where it fails,
/// else the parts of its result that the loader reads.
pub uninterp spec fn parsed_elf(bytes: Seq<u8>) -> Option<ElfLayoutView>;

/// `goblin::elf::Elf::parse`: parses `bytes` as an ELF image. The contract
/// names the result, as a function of the bytes alone, and says nothing more
/// of it. Of a parsed image the class, the byte order, whether it is a
/// library, the entry address, and of each program header the type, flags,
/// file offset and file size are handed on as they are.
#[verifier::external_body]
pub(crate) fn parse_elf(bytes: &[u8]) -> (r: Result<ElfLayout, goblin::error::Error>)
    ensures
        match r {
            Ok(layout) => parsed_elf(bytes@) == Some(layout@),
            Err(_) => parsed_elf(bytes@) is None,
        },
{
    let elf = goblin::elf::Elf::parse(bytes)?;
    let mut program_headers = Vec::new();
    for ph in elf.program_headers.iter() {
        let (p_type, p_flags, p_offset, p_filesz) = (ph.p_type, ph.p_flags, ph.p_offset, ph.p_filesz);
        program_headers.push(ProgramHeader { p_type, p_flags, p_offset, p_filesz });
    }
    let (is_lib, is_64, little_endian) = (elf.is_lib, elf.is_64, elf.little_endian);
    let entry = elf.entry;
    Ok(ElfLayout { is_lib, is_64, little_endian, entry, program_headers })
}

/// The number of headers of loadable segments among the first `n`.
pub open spec fn count_loadable(headers: Seq<ProgramHeader>, n: nat) -> nat
    decreases n,
{
    if n == 0 {
        0
    } else {
        count_loadable(headers, (n - 1) as nat) + if headers[n - 1].p_type == PT_LOAD {
            1nat
        } else {
            0nat
        }
    }
}

/// The first header, from index `from` on, that describes `segment`.
pub open spec fn find_segment(headers: Seq<ProgramHeader>, segment: Segment, from: nat) -> Option<
    ProgramHeader,
>
    decreases headers.len() - from,
{
    if from >= headers.len() {
        None
    } else if headers[from as int].spec_describes(segment) {
        Some(headers[from as int])
    } else {
        find_segment(headers, segment, from + 1)
    }
}

/// The code segment, the data segment and the entry address of a RISC-U
/// binary, or the text that names the first constraint that the image breaks.
pub open spec fn program_info(raw: Seq<u8>, elf: ElfLayoutView) -> Result<
    (Seq<u8>, Seq<u8>, u64),
    &'static str,
> {
    let code = find_segment(elf.program_headers, Segment::Code, 0);
    let data = find_segment(elf.program_headers, Segment::Data, 0);
    if elf.is_lib || !elf.is_64 || !elf.little_endian {
        Err(NOT_STATIC_EXECUTABLE)
    } else if count_loadable(elf.program_headers, elf.program_headers.len()) != 2 {
        Err(WRONG_SEGMENT_COUNT)
    } else if code is None {
        Err(CODE_SEGMENT_MISSING)
    } else if data is None {
        Err(DATA_SEGMENT_MISSING)
    } else if code->Some_0.file_end() > raw.len() || data->Some_0.file_end() > raw.len() {
        Err(SEGMENT_OUTSIDE_FILE)
    } else {
        Ok(
            (
                raw.subrange(code->Some_0.file_start(), code->Some_0.file_end()),
                raw.subrange(data->Some_0.file_start(), data->Some_0.file_end()),
                elf.entry,
            ),
        )
    }
}

/// The number of headers among the first `n` that describe `segment`.
pub open spec fn count_describing(headers: Seq<ProgramHeader>, segment: Segment, n: nat) -> nat
    decreases n,
{
    if n == 0 {
        0
    } else {
        count_describing(headers, segment, (n - 1) as nat) + if headers[n - 1].spec_describes(
            segment,
        ) {
            1nat
        } else {
            0nat
        }
    }
}

/// No header describes both segments, and each that describes one is
/// loadable: the headers of code and of data together are at most the
/// loadable ones.
proof fn lemma_described_are_loadable(headers: Seq<ProgramHeader>, n: nat)
    requires
        n <= headers.len(),
    ensures
        count_describing(headers, Segment::Code, n) + count_describing(headers, Segment::Data, n)
            <= count_loadable(headers, n),
    decreases n,
{
    if n > 0 {
        lemma_described_are_loadable(headers, (n - 1) as nat);
    }
}

/// A header that describes `segment` is counted.
proof fn lemma_described_is_counted(
    headers: Seq<ProgramHeader>,
    segment: Segment,
    k: int,
    n: nat,
)
    requires
        0 <= k < n <= headers.len(),
        headers[k].spec_describes(segment),
    ensures
        count_describing(headers, segment, n) >= 1,
    decreases n,
{
    if k < n - 1 {
        lemma_described_is_counted(headers, segment, k, (n - 1) as nat);
    }
}

/// What a search finds is counted.
proof fn lemma_found_is_counted(headers: Seq<ProgramHeader>, segment: Segment, from: nat)
    requires
        find_segment(headers, segment, from) is Some,
    ensures
        count_describing(headers, segment, headers.len()) >= 1,
        find_segment(headers, segment, from)->Some_0.spec_describes(segment),
    decreases headers.len() - from,
{
    if headers[from as int].spec_describes(segment) {
        lemma_described_is_counted(headers, segment, from as int, headers.len());
    } else {
        lemma_found_is_counted(headers, segment, from + 1);
    }
}

/// An image whose segments can be picked out is a little-endian 64-bit
/// executable that is no library, with exactly two loadable segments:
/// exactly one of them is code, exactly one is data, and the file holds both
/// in full. Headers of segments that are not loadable do not count.
pub proof fn lemma_loaded_is_riscu(raw: Seq<u8>, elf: ElfLayoutView)
    requires
        program_info(raw, elf) is Ok,
    ensures
        !elf.is_lib,
        elf.is_64,
        elf.little_endian,
        count_loadable(elf.program_headers, elf.program_headers.len()) == 2,
        count_describing(elf.program_headers, Segment::Code, elf.program_headers.len()) == 1,
        count_describing(elf.program_headers, Segment::Data, elf.program_headers.len()) == 1,
        find_segment(elf.program_headers, Segment::Code, 0) matches Some(code)
            && code.spec_describes(Segment::Code) && program_info(raw, elf)->Ok_0.0
            == raw.subrange(code.file_start(), code.file_end()) && code.file_end() <= raw.len(),
        find_segment(elf.program_headers, Segment::Data, 0) matches Some(data)
            && data.spec_describes(Segment::Data) && program_info(raw, elf)->Ok_0.1
            == raw.subrange(data.file_start(), data.file_end()) && data.file_end() <= raw.len(),
        program_info(raw, elf)->Ok_0.2 == elf.entry,
{
    let headers = elf.program_headers;
    lemma_described_are_loadable(headers, headers.len());
    lemma_found_is_counted(headers, Segment::Code, 0);
    lemma_found_is_counted(headers, Segment::Data, 0);
}

/// Counts the headers of loadable segments.
fn loadable_segments(headers: &[ProgramHeader]) -> (count: usize)
    ensures
        count == count_loadable(headers@, headers@.len()),
{
    let mut count: usize = 0;
    let mut i: usize = 0;
    while i < headers.len()
        invariant
            i <= headers@.len(),
            count <= i,
            count == count_loadable(headers@, i as nat),
        decreases headers@.len() - i,
    {
        if headers[i].p_type == PT_LOAD {
            count += 1;
        }
        i += 1;
    }
    count
}

/// Finds the first header that describes `segment`.
fn first_segment(headers: &[ProgramHeader], segment: Segment) -> (found: Option<ProgramHeader>)
    ensures
        found == find_segment(headers@, segment, 0),
{
    let mut i: usize = 0;
    while i < headers.len()
        invariant
            i <= headers@.len(),
            find_segment(headers@, segment, 0) == find_segment(headers@, segment, i as nat),
        decreases headers@.len() - i,
    {
        if headers[i].describes(segment) {
            return Some(headers[i]);
        }
        i += 1;
    }
    None
}

/// Checks that a parsed image has the shape of a RISC-U binary and picks its
/// code segment, its data segment and its entry address out of the file
/// `raw`.
pub fn extract_program_info<'a>(raw: &'a [u8], elf: &ElfLayout) -> (r: Result<
    (&'a [u8], &'a [u8], u64),
    ElfLoaderError,
>)
    ensures
        match r {
            Ok((code, data, entry)) => program_info(raw@, elf@) == Ok::<
                (Seq<u8>, Seq<u8>, u64),
                &'static str,
            >((code@, data@, entry)),
            Err(e) => program_info(raw@, elf@) is Err && e == ElfLoaderError::InvalidRiscu(
                program_info(raw@, elf@)->Err_0,
            ),
        },
{
    if elf.is_lib || !elf.is_64 || !elf.little_endian {
        return Err(ElfLoaderError::InvalidRiscu(NOT_STATIC_EXECUTABLE));
    }
    let headers = elf.program_headers.as_slice();
    if loadable_segments(headers) != 2 {
        return Err(ElfLoaderError::InvalidRiscu(WRONG_SEGMENT_COUNT));
    }
    let code_segment_header = match first_segment(headers, Segment::Code) {
        Some(segment) => segment,
        None => {
            return Err(ElfLoaderError::InvalidRiscu(CODE_SEGMENT_MISSING));
        },
    };
    let data_segment_header = match first_segment(headers, Segment::Data) {
        Some(segment) => segment,
        None => {
            return Err(ElfLoaderError::InvalidRiscu(DATA_SEGMENT_MISSING));
        },
    };
    let code_end = code_segment_header.p_offset.saturating_add(code_segment_header.p_filesz);
    let data_end = data_segment_header.p_offset.saturating_add(data_segment_header.p_filesz);
    let len = raw.len() as u64;
    if code_end > len || data_end > len {
        return Err(ElfLoaderError::InvalidRiscu(SEGMENT_OUTSIDE_FILE));
    }
    let code_segment = &raw[code_segment_header.p_offset as usize..code_end as usize];
    let data_segment = &raw[data_segment_header.p_offset as usize..data_end as usize];
    Ok((code_segment, data_segment, elf.entry))
}

/// Copies the segments out of the file.
pub fn copy_segments(program: (&[u8], &[u8], u64)) -> (r: RiscuProgram)
    ensures
        r.code_segment@ == program.0@,
        r.data_segment@ == program.1@,
        r.entry_address == program.2,
{
    RiscuProgram {
        code_segment: slice_to_vec(program.0),
        data_segment: slice_to_vec(program.1),
        entry_address: program.2,
    }
}

/// Word `k` of a code segment.
pub open spec fn code_word(code: Seq<u8>, k: int) -> u32 {
    le_u32(code.subrange(4 * k, 4 * k + 4))
}

/// The whole 64-bit words of a data segment, in order.
pub open spec fn data_words(data: Seq<u8>) -> Seq<u64> {
    Seq::new((data.len() / 8) as nat, |k: int| le_u64(data.subrange(8 * k, 8 * k + 8)))
}

/// `code` is a whole number of words and `decode` can have made
/// `instructions` of them, one of each, in order.
pub open spec fn decodes_to<I, D: Fn(u32) -> Result<I, DecodingError>>(
    decode: D,
    code: Seq<u8>,
    instructions: Seq<I>,
) -> bool {
    &&& code.len() == 4 * instructions.len()
    &&& forall|k: int|
        0 <= k < instructions.len() ==> decode.ensures(
            (code_word(code, k),),
            Ok(#[trigger] instructions[k]),
        )
}

/// `decode` can have failed with `error` on word `k` of `code`, and `decoded`
/// is what it made of each word before that one.
pub open spec fn fails_at<I, D: Fn(u32) -> Result<I, DecodingError>>(
    decode: D,
    code: Seq<u8>,
    decoded: Seq<I>,
    k: int,
    error: DecodingError,
) -> bool {
    &&& 0 <= k < code.len() / 4
    &&& decoded.len() == k
    &&& forall|j: int|
        0 <= j < k ==> decode.ensures((code_word(code, j),), Ok(#[trigger] decoded[j]))
    &&& decode.ensures((code_word(code, k),), Err(error))
}

/// `r` is what decoding the segments with `decode` can give. A code segment
/// whose length is no multiple of four is refused. Of any other the result is
/// the program with every code word decoded, or the error of the first code
/// word that `decode` fails on.
pub open spec fn is_decoded_program<I, D: Fn(u32) -> Result<I, DecodingError>>(
    decode: D,
    code: Seq<u8>,
    data: Seq<u8>,
    entry: u64,
    r: Result<DecodedRiscuProgram<I>, ElfLoaderError>,
) -> bool {
    if code.len() % 4 != 0 {
        r matches Err(e) && e == ElfLoaderError::InvalidRiscu(CODE_NOT_WHOLE_WORDS)
    } else {
        match r {
            Ok(program) => {
                &&& decodes_to(decode, code, program.code_segment@)
                &&& program.data_segment@ == data_words(data)
                &&& program.entry_address == entry
            },
            Err(e) => exists|decoded: Seq<I>, k: int, error: DecodingError|
                #[trigger] fails_at(decode, code, decoded, k, error) && e
                    == ElfLoaderError::DecodingError(error),
        }
    }
}

/// Decodes every four-byte word of the code segment with `decode` and reads
/// every whole eight-byte word of the data segment as a little-endian number.
/// A code segment that is no whole number of words is refused before anything
/// is decoded. The first code word that `decode` fails on ends the work with
/// its error. Bytes of the data segment after its last whole word are left
/// out.
pub fn copy_and_decode_segments<I, D: Fn(u32) -> Result<I, DecodingError>>(
    program: (&[u8], &[u8], u64),
    decode: D,
) -> (r: Result<DecodedRiscuProgram<I>, ElfLoaderError>)
    requires
        is_decoder(decode),
    ensures
        is_decoded_program(decode, program.0@, program.1@, program.2, r),
{
    let code = program.0;
    let data = program.1;
    if code.len() % 4 != 0 {
        return Err(ElfLoaderError::InvalidRiscu(CODE_NOT_WHOLE_WORDS));
    }
    let mut code_segment: Vec<I> = Vec::new();
    let code_words = code.len() / 4;
    let mut k: usize = 0;
    while k < code_words
        invariant
            is_decoder(decode),
            code@ == program.0@,
            4 * code_words == code@.len() <= usize::MAX,
            k <= code_words,
            code_segment@.len() == k,
            forall|j: int|
                0 <= j < k ==> decode.ensures(
                    (code_word(code@, j),),
                    Ok(#[trigger] code_segment@[j]),
                ),
        decreases code_words - k,
    {
        let raw = read_u32(&code[4 * k..4 * k + 4]);
        match decode(raw) {
            Ok(instruction) => {
                code_segment.push(instruction);
            },
            Err(error) => {
                assert(fails_at(decode, code@, code_segment@, k as int, error));
                return Err(ElfLoaderError::DecodingError(error));
            },
        }
        k += 1;
    }
    let mut data_segment: Vec<u64> = Vec::new();
    let data_len = data.len() / 8;
    let mut k: usize = 0;
    while k < data_len
        invariant
            data_len == data@.len() / 8,
            8 * data_len <= data@.len() <= usize::MAX,
            k <= data_len,
            data_segment@.len() == k,
            forall|j: int|
                0 <= j < k ==> #[trigger] data_segment@[j] == le_u64(
                    data@.subrange(8 * j, 8 * j + 8),
                ),
        decreases data_len - k,
    {
        data_segment.push(read_u64(&data[8 * k..8 * k + 8]));
        k += 1;
    }
    assert(data_segment@ =~= data_words(data@));
    Ok(DecodedRiscuProgram { code_segment, data_segment, entry_address: program.2 })
}

/// `r` is what loading the file `buffer` gives when `parsed` is what the ELF
/// parser makes of it: the parser's error, or the text that names the broken
/// constraint, or the two segments and the entry address.
pub open spec fn is_loaded(
    buffer: Seq<u8>,
    parsed: Option<ElfLayoutView>,
    r: Result<(Seq<u8>, Seq<u8>, u64), ElfLoaderError>,
) -> bool {
    match parsed {
        None => r matches Err(ElfLoaderError::InvalidElf(_)),
        Some(layout) => match program_info(buffer, layout) {
            Ok(info) => r == Ok::<(Seq<u8>, Seq<u8>, u64), ElfLoaderError>(info),
            Err(text) => r == Err::<(Seq<u8>, Seq<u8>, u64), ElfLoaderError>(
                ElfLoaderError::InvalidRiscu(text),
            ),
        },
    }
}

/// Parses the file `buffer` as an ELF image, checks that it is a RISC-U
/// binary and picks its code segment, its data segment and its entry address
/// out of `buffer`.
pub fn load_elf_file<'a>(buffer: &'a [u8]) -> (r: Result<(&'a [u8], &'a [u8], u64), ElfLoaderError>)
    ensures
        is_loaded(
            buffer@,
            parsed_elf(buffer@),
            match r {
                Ok((code, data, entry)) => Ok((code@, data@, entry)),
                Err(e) => Err(e),
            },
        ),
{
    match parse_elf(buffer) {
        Ok(elf) => extract_program_info(buffer, &elf),
        Err(e) => Err(ElfLoaderError::InvalidElf(e)),
    }
}

/// Loads the file `object_file`, given as its bytes, as a RISC-U binary.
pub fn load_object_file(object_file: &[u8]) -> (r: Result<RiscuProgram, ElfLoaderError>)
    ensures
        is_loaded(
            object_file@,
            parsed_elf(object_file@),
            match r {
                Ok(program) => Ok(
                    (program.code_segment@, program.data_segment@, program.entry_address),
                ),
                Err(e) => Err(e),
            },
        ),
{
    match load_elf_file(object_file) {
        Ok(program) => Ok(copy_segments(program)),
        Err(e) => Err(e),
    }
}

/// Loads the file `object_file`, given as its bytes, as a RISC-U binary, and
/// decodes its code segment with `decode` and its data segment into 64-bit
/// words.
pub fn load_and_decode_object_file<I, D: Fn(u32) -> Result<I, DecodingError>>(
    object_file: &[u8],
    decode: D,
) -> (r: Result<DecodedRiscuProgram<I>, ElfLoaderError>)
    requires
        is_decoder(decode),
    ensures
        match parsed_elf(object_file@) {
            None => r matches Err(ElfLoaderError::InvalidElf(_)),
            Some(layout) => match program_info(object_file@, layout) {
                Ok((code, data, entry)) => is_decoded_program(decode, code, data, entry, r),
                Err(text) => r matches Err(e) && e == ElfLoaderError::InvalidRiscu(text),
            },
        },
{
    match load_elf_file(object_file) {
        Ok(program) => copy_and_decode_segments(program, decode),
        Err(e) => Err(e),
    }
}

} // verus!
