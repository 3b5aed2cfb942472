use riscu::elf::{
    copy_and_decode_segments, copy_segments, extract_program_info, load_and_decode_object_file,
    load_elf_file, load_object_file, ElfLayout, ElfLoaderError, ProgramHeader, Segment,
};
use riscu::DecodingError;

const PT_NOTE: u32 = 4;
const PT_LOAD: u32 = 1;
const X: u32 = 1;
const W: u32 = 2;
const R: u32 = 4;

const CODE: [u8; 8] = [0x93, 0x00, 0x10, 0x00, 0xb3, 0x04, 0x94, 0x40];
const DATA: [u8; 16] = [1, 0, 0, 0, 0, 0, 0, 0, 0xef, 0xcd, 0xab, 0x89, 0x67, 0x45, 0x23, 0x01];

struct Image {
    class: u8,
    big_endian: bool,
    kind: u16,
    entry: u64,
    segments: Vec<(u32, u32, Vec<u8>)>,
}

impl Image {
    fn riscu() -> Image {
        Image {
            class: 2,
            big_endian: false,
            kind: 2,
            entry: 0x1_0000,
            segments: vec![(PT_LOAD, X, CODE.to_vec()), (PT_LOAD, R | W, DATA.to_vec())],
        }
    }

    fn u16(&self, out: &mut Vec<u8>, v: u16) {
        if self.big_endian {
            out.extend_from_slice(&v.to_be_bytes());
        } else {
            out.extend_from_slice(&v.to_le_bytes());
        }
    }

    fn u32(&self, out: &mut Vec<u8>, v: u32) {
        if self.big_endian {
            out.extend_from_slice(&v.to_be_bytes());
        } else {
            out.extend_from_slice(&v.to_le_bytes());
        }
    }

    fn u64(&self, out: &mut Vec<u8>, v: u64) {
        if self.big_endian {
            out.extend_from_slice(&v.to_be_bytes());
        } else {
            out.extend_from_slice(&v.to_le_bytes());
        }
    }

    fn word(&self, out: &mut Vec<u8>, v: u64) {
        if self.class == 2 {
            self.u64(out, v);
        } else {
            self.u32(out, v as u32);
        }
    }

    fn bytes(&self) -> Vec<u8> {
        let header_size: u64 = if self.class == 2 { 64 } else { 52 };
        let entry_size: u64 = if self.class == 2 { 56 } else { 32 };
        let mut out = vec![0x7f, b'E', b'L', b'F', self.class, if self.big_endian { 2 } else { 1 }, 1];
        out.resize(16, 0);
        self.u16(&mut out, self.kind);
        self.u16(&mut out, 0xf3);
        self.u32(&mut out, 1);
        self.word(&mut out, self.entry);
        self.word(&mut out, header_size);
        self.word(&mut out, 0);
        self.u32(&mut out, 0);
        self.u16(&mut out, header_size as u16);
        self.u16(&mut out, entry_size as u16);
        self.u16(&mut out, self.segments.len() as u16);
        self.u16(&mut out, 0);
        self.u16(&mut out, 0);
        self.u16(&mut out, 0);
        let mut offset = header_size + entry_size * self.segments.len() as u64;
        for (kind, flags, content) in &self.segments {
            let size = content.len() as u64;
            self.u32(&mut out, *kind);
            if self.class == 2 {
                self.u32(&mut out, *flags);
                self.u64(&mut out, offset);
                self.u64(&mut out, 0x1_0000 + offset);
                self.u64(&mut out, 0x1_0000 + offset);
                self.u64(&mut out, size);
                self.u64(&mut out, size);
                self.u64(&mut out, 8);
            } else {
                self.u32(&mut out, offset as u32);
                self.u32(&mut out, 0x1_0000 + offset as u32);
                self.u32(&mut out, 0x1_0000 + offset as u32);
                self.u32(&mut out, size as u32);
                self.u32(&mut out, size as u32);
                self.u32(&mut out, *flags);
                self.u32(&mut out, 8);
            }
            offset += size;
        }
        for (_, _, content) in &self.segments {
            out.extend_from_slice(content);
        }
        out
    }
}

fn violation<T>(result: Result<T, ElfLoaderError>) -> &'static str {
    match result {
        Err(ElfLoaderError::InvalidRiscu(text)) => text,
        Err(other) => panic!("another error: {:?}", other),
        Ok(_) => panic!("loaded"),
    }
}

fn raw(word: u32) -> Result<u32, DecodingError> {
    Ok(word)
}

fn only_addi(word: u32) -> Result<u32, DecodingError> {
    if word & 0x7f == 0x13 {
        Ok(word)
    } else {
        Err(DecodingError::Unimplemented)
    }
}

fn only_sub(word: u32) -> Result<u32, DecodingError> {
    if word & 0x7f == 0x33 {
        Ok(word)
    } else {
        Err(DecodingError::Illegal)
    }
}

fn layout(headers: Vec<ProgramHeader>) -> ElfLayout {
    ElfLayout {
        is_lib: false,
        is_64: true,
        little_endian: true,
        entry: 0x400,
        program_headers: headers,
    }
}

fn header(p_type: u32, p_flags: u32, p_offset: u64, p_filesz: u64) -> ProgramHeader {
    ProgramHeader { p_type, p_flags, p_offset, p_filesz }
}

#[test]
fn well_formed_binary_loads() {
    let program = load_object_file(&Image::riscu().bytes()).unwrap();
    assert_eq!(program.code_segment, CODE.to_vec());
    assert_eq!(program.data_segment, DATA.to_vec());
    assert_eq!(program.entry_address, 0x1_0000);
}

#[test]
fn entry_address_is_the_entry_of_the_header() {
    let mut image = Image::riscu();
    image.entry = 0x1234_5678_9abc_def0;
    let program = load_object_file(&image.bytes()).unwrap();
    assert_eq!(program.entry_address, 0x1234_5678_9abc_def0);
}

#[test]
fn segments_load_in_either_order() {
    let mut image = Image::riscu();
    image.segments.reverse();
    let program = load_object_file(&image.bytes()).unwrap();
    assert_eq!(program.code_segment, CODE.to_vec());
    assert_eq!(program.data_segment, DATA.to_vec());
}

#[test]
fn load_elf_file_borrows_the_segments_from_the_buffer() {
    let bytes = Image::riscu().bytes();
    let (code, data, entry) = load_elf_file(&bytes).unwrap();
    assert_eq!(code, &bytes[176..184]);
    assert_eq!(data, &bytes[184..200]);
    assert_eq!(entry, 0x1_0000);
}

#[test]
fn three_loadable_segments_are_refused() {
    let mut image = Image::riscu();
    image.segments.push((PT_LOAD, R, vec![0; 8]));
    assert_eq!(violation(load_object_file(&image.bytes())), "must have 2 program segments");
}

#[test]
fn one_loadable_segment_is_refused() {
    let mut image = Image::riscu();
    image.segments.pop();
    assert_eq!(violation(load_object_file(&image.bytes())), "must have 2 program segments");
}

#[test]
fn further_header_that_is_not_loadable_does_not_count() {
    let mut image = Image::riscu();
    image.segments.push((PT_NOTE, R, vec![0; 8]));
    let program = load_object_file(&image.bytes()).unwrap();
    assert_eq!(program.code_segment, CODE.to_vec());
    assert_eq!(program.data_segment, DATA.to_vec());
    assert_eq!(program.entry_address, 0x1_0000);
    let mut image = Image::riscu();
    image.segments.insert(0, (PT_NOTE, X, vec![0; 4]));
    let program = load_and_decode_object_file(&image.bytes(), raw).unwrap();
    assert_eq!(program.code_segment, vec![0x0010_0093, 0x4094_04b3]);
}

#[test]
fn two_program_headers_of_which_one_is_not_loadable_are_refused() {
    let mut image = Image::riscu();
    image.segments[1].0 = PT_NOTE;
    assert_eq!(violation(load_object_file(&image.bytes())), "must have 2 program segments");
}

#[test]
fn missing_code_segment_is_refused() {
    let mut image = Image::riscu();
    image.segments[0].1 = R | W;
    assert_eq!(
        violation(load_object_file(&image.bytes())),
        "code segment (must be executable only) is missing"
    );
}

#[test]
fn readable_code_segment_is_refused() {
    let mut image = Image::riscu();
    image.segments[0].1 = R | X;
    assert_eq!(
        violation(load_object_file(&image.bytes())),
        "code segment (must be executable only) is missing"
    );
}

#[test]
fn missing_data_segment_is_refused() {
    let mut image = Image::riscu();
    image.segments[1].1 = R;
    assert_eq!(
        violation(load_object_file(&image.bytes())),
        "data segment (must be readable and writable only) is missing"
    );
}

#[test]
fn executable_data_segment_is_refused() {
    let mut image = Image::riscu();
    image.segments[1].1 = R | W | X;
    assert_eq!(
        violation(load_object_file(&image.bytes())),
        "data segment (must be readable and writable only) is missing"
    );
}

#[test]
fn thirty_two_bit_image_is_refused() {
    let mut image = Image::riscu();
    image.class = 1;
    assert_eq!(
        violation(load_object_file(&image.bytes())),
        "has to be an executable, 64bit, static, little endian binary"
    );
}

#[test]
fn big_endian_image_is_refused() {
    let mut image = Image::riscu();
    image.big_endian = true;
    assert_eq!(
        violation(load_object_file(&image.bytes())),
        "has to be an executable, 64bit, static, little endian binary"
    );
}

#[test]
fn shared_object_is_refused() {
    let mut image = Image::riscu();
    image.kind = 3;
    assert_eq!(
        violation(load_object_file(&image.bytes())),
        "has to be an executable, 64bit, static, little endian binary"
    );
}

#[test]
fn cut_file_is_refused() {
    let mut bytes = Image::riscu().bytes();
    bytes.truncate(190);
    assert_eq!(
        violation(load_object_file(&bytes)),
        "code or data segment lies outside of the file"
    );
}

#[test]
fn bytes_that_are_no_elf_image_are_refused() {
    assert!(matches!(load_object_file(b"not an ELF image"), Err(ElfLoaderError::InvalidElf(_))));
    assert!(matches!(load_object_file(&[]), Err(ElfLoaderError::InvalidElf(_))));
    assert!(matches!(load_elf_file(&[0x7f, b'E', b'L', b'F']), Err(ElfLoaderError::InvalidElf(_))));
    assert!(matches!(
        load_and_decode_object_file(b"not an ELF image", raw),
        Err(ElfLoaderError::InvalidElf(_))
    ));
}

#[test]
fn well_formed_binary_loads_and_decodes() {
    let program = load_and_decode_object_file(&Image::riscu().bytes(), raw).unwrap();
    assert_eq!(program.code_segment, vec![0x0010_0093, 0x4094_04b3]);
    assert_eq!(program.data_segment, vec![1, 0x0123_4567_89ab_cdef]);
    assert_eq!(program.entry_address, 0x1_0000);
}

#[test]
fn decoding_failure_ends_the_load() {
    let result = load_and_decode_object_file(&Image::riscu().bytes(), only_addi);
    assert!(matches!(
        result,
        Err(ElfLoaderError::DecodingError(DecodingError::Unimplemented))
    ));
}

#[test]
fn shape_is_checked_before_decoding() {
    let mut image = Image::riscu();
    image.segments[1].1 = R;
    assert_eq!(
        violation(load_and_decode_object_file(&image.bytes(), only_addi)),
        "data segment (must be readable and writable only) is missing"
    );
}

#[test]
fn extract_picks_the_segments_out_of_the_file() {
    let file: Vec<u8> = (0..32).collect();
    let elf = layout(vec![header(PT_LOAD, R | W, 20, 8), header(PT_LOAD, X, 4, 12)]);
    let (code, data, entry) = extract_program_info(&file, &elf).unwrap();
    assert_eq!(code, &file[4..16]);
    assert_eq!(data, &file[20..28]);
    assert_eq!(entry, 0x400);
}

#[test]
fn extract_takes_the_first_header_of_each_kind() {
    let file: Vec<u8> = (0..32).collect();
    let mut elf = layout(vec![header(PT_LOAD, X, 0, 4), header(PT_LOAD, R | W, 8, 8)]);
    elf.program_headers.push(header(PT_NOTE, X, 16, 4));
    let (code, data, _) = extract_program_info(&file, &elf).unwrap();
    assert_eq!(code, &file[0..4]);
    assert_eq!(data, &file[8..16]);
}

#[test]
fn extract_accepts_empty_segments_at_the_end_of_the_file() {
    let file = [0u8; 8];
    let elf = layout(vec![header(PT_LOAD, X, 8, 0), header(PT_LOAD, R | W, 0, 0)]);
    let (code, data, _) = extract_program_info(&file, &elf).unwrap();
    assert!(code.is_empty());
    assert!(data.is_empty());
}

#[test]
fn extract_counts_loadable_headers_only() {
    let file: Vec<u8> = (0..32).collect();
    let elf = layout(vec![
        header(PT_NOTE, R, 24, 8),
        header(PT_LOAD, X, 0, 4),
        header(PT_NOTE, R | W, 16, 8),
        header(PT_LOAD, R | W, 8, 8),
    ]);
    let (code, data, entry) = extract_program_info(&file, &elf).unwrap();
    assert_eq!(code, &file[0..4]);
    assert_eq!(data, &file[8..16]);
    assert_eq!(entry, 0x400);
}

#[test]
fn extract_names_the_missing_data_segment_beside_another_header() {
    let file = [0u8; 32];
    let elf = layout(vec![
        header(PT_LOAD, X, 0, 4),
        header(PT_LOAD, R, 8, 8),
        header(PT_NOTE, R | W, 16, 8),
    ]);
    assert_eq!(
        violation(extract_program_info(&file, &elf)),
        "data segment (must be readable and writable only) is missing"
    );
}

#[test]
fn extract_refuses_three_loadable_headers() {
    let file = [0u8; 32];
    let elf = layout(vec![
        header(PT_LOAD, X, 0, 4),
        header(PT_LOAD, R | W, 8, 8),
        header(PT_LOAD, R, 16, 8),
    ]);
    assert_eq!(violation(extract_program_info(&file, &elf)), "must have 2 program segments");
}

#[test]
fn extract_names_the_first_broken_constraint() {
    let file = [0u8; 32];
    let mut elf = layout(vec![header(PT_LOAD, R, 0, 64)]);
    elf.is_64 = false;
    assert_eq!(
        violation(extract_program_info(&file, &elf)),
        "has to be an executable, 64bit, static, little endian binary"
    );
    elf.is_64 = true;
    assert_eq!(violation(extract_program_info(&file, &elf)), "must have 2 program segments");
    elf.program_headers.push(header(PT_LOAD, R, 0, 64));
    assert_eq!(
        violation(extract_program_info(&file, &elf)),
        "code segment (must be executable only) is missing"
    );
    elf.program_headers[0].p_flags = X;
    assert_eq!(
        violation(extract_program_info(&file, &elf)),
        "data segment (must be readable and writable only) is missing"
    );
    elf.program_headers[1].p_flags = R | W;
    assert_eq!(
        violation(extract_program_info(&file, &elf)),
        "code or data segment lies outside of the file"
    );
}

#[test]
fn extract_refuses_a_segment_whose_end_is_not_representable() {
    let file = [0u8; 32];
    let elf = layout(vec![header(PT_LOAD, X, 4, u64::MAX), header(PT_LOAD, R | W, 8, 8)]);
    assert_eq!(
        violation(extract_program_info(&file, &elf)),
        "code or data segment lies outside of the file"
    );
}

#[test]
fn program_header_permissions() {
    let code = header(PT_LOAD, X, 0, 0);
    assert!(code.is_executable() && !code.is_read() && !code.is_write());
    assert!(code.describes(Segment::Code) && !code.describes(Segment::Data));
    let data = header(PT_LOAD, R | W, 0, 0);
    assert!(!data.is_executable() && data.is_read() && data.is_write());
    assert!(data.describes(Segment::Data) && !data.describes(Segment::Code));
    assert!(!header(PT_NOTE, X, 0, 0).describes(Segment::Code));
    assert!(!header(PT_LOAD, R | W | X, 0, 0).describes(Segment::Data));
    assert!(header(PT_LOAD, X | 0x10, 0, 0).describes(Segment::Code));
}

#[test]
fn copy_segments_copies() {
    let program = copy_segments((&CODE, &DATA, 7));
    assert_eq!(program.code_segment, CODE.to_vec());
    assert_eq!(program.data_segment, DATA.to_vec());
    assert_eq!(program.entry_address, 7);
}

#[test]
fn decode_segments_reads_little_endian_words() {
    let program = copy_and_decode_segments((&CODE, &DATA, 7), raw).unwrap();
    assert_eq!(program.code_segment, vec![0x0010_0093, 0x4094_04b3]);
    assert_eq!(program.data_segment, vec![1, 0x0123_4567_89ab_cdef]);
    assert_eq!(program.entry_address, 7);
}

#[test]
fn decode_segments_refuses_code_that_is_no_whole_number_of_words() {
    for len in [1, 2, 3, 5, 6, 7] {
        assert_eq!(
            violation(copy_and_decode_segments((&CODE[..len], &DATA, 0), raw)),
            "code segment must be a whole number of 4 byte words"
        );
    }
    // the length is looked at before any word is decoded
    assert_eq!(
        violation(copy_and_decode_segments((&CODE[..7], &DATA, 0), only_sub)),
        "code segment must be a whole number of 4 byte words"
    );
}

#[test]
fn load_and_decode_refuses_code_that_is_no_whole_number_of_words() {
    let mut image = Image::riscu();
    image.segments[0].2 = CODE[..6].to_vec();
    assert_eq!(
        violation(load_and_decode_object_file(&image.bytes(), raw)),
        "code segment must be a whole number of 4 byte words"
    );
    assert_eq!(load_object_file(&image.bytes()).unwrap().code_segment, CODE[..6].to_vec());
}

#[test]
fn decode_segments_accepts_empty_code() {
    let program = copy_and_decode_segments((&CODE[..0], &DATA[..0], 3), only_sub).unwrap();
    assert_eq!(program.code_segment, Vec::<u32>::new());
    assert_eq!(program.data_segment, Vec::<u64>::new());
    assert_eq!(program.entry_address, 3);
}

#[test]
fn decode_segments_leaves_out_data_bytes_after_the_last_whole_word() {
    let program = copy_and_decode_segments((&CODE[..4], &DATA[..15], 0), raw).unwrap();
    assert_eq!(program.code_segment, vec![0x0010_0093]);
    assert_eq!(program.data_segment, vec![1]);
}

#[test]
fn decode_segments_fails_with_the_first_decoding_error() {
    let first_then_second = |word: u32| -> Result<u32, DecodingError> {
        match word {
            0x0010_0093 => Err(DecodingError::Reserved),
            _ => Err(DecodingError::Illegal),
        }
    };
    assert!(matches!(
        copy_and_decode_segments((&CODE, &DATA, 0), first_then_second),
        Err(ElfLoaderError::DecodingError(DecodingError::Reserved))
    ));
    assert!(matches!(
        copy_and_decode_segments((&CODE, &DATA, 0), only_addi),
        Err(ElfLoaderError::DecodingError(DecodingError::Unimplemented))
    ));
}
