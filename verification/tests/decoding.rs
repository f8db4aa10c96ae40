use nowasm::components::{Exportdesc, Importdesc, Name, Valtype};
use nowasm::decode::{Decode, DecodeError};
use nowasm::instructions::Instr;
use nowasm::module::{Module, SectionId};
use nowasm::module_spec::ModuleSpec;
use nowasm::reader::Reader;
use nowasm::symbols::{BlockType, ExportDesc, GlobalType, ImportDesc, LabelIdx, MemArg, S33};

const PREAMBLE: [u8; 8] = [0, 97, 115, 109, 1, 0, 0, 0];

fn with_sections(sections: &[(u8, &[u8])]) -> Vec<u8> {
    let mut m = PREAMBLE.to_vec();
    for (id, content) in sections {
        m.push(*id);
        m.push(content.len() as u8);
        m.extend_from_slice(content);
    }
    m
}

fn decode_err(bytes: &[u8]) -> DecodeError {
    Module::decode(bytes).err().expect("an error")
}

#[test]
fn leb128_unsigned_values() {
    let mut r = Reader::new(&[0xe5, 0x8e, 0x26]);
    assert_eq!(r.read_u32(), Ok(624485));
    assert!(r.is_empty());
    let mut r = Reader::new(&[0xff, 0xff, 0xff, 0xff, 0x0f]);
    assert_eq!(r.read_u32(), Ok(u32::MAX));
    let mut r = Reader::new(&[0x80, 0x00]);
    assert_eq!(r.read_u32(), Ok(0));
    assert_eq!(r.position(), 2);
}

#[test]
fn leb128_signed_values() {
    let mut r = Reader::new(&[0xc0, 0xbb, 0x78]);
    assert_eq!(r.read_i32(), Ok(-123456));
    let mut r = Reader::new(&[0x7f]);
    assert_eq!(r.read_i32(), Ok(-1));
    let mut r = Reader::new(&[0x80, 0x80, 0x80, 0x80, 0x78]);
    assert_eq!(r.read_i32(), Ok(i32::MIN));
    let mut r = Reader::new(&[0x7f]);
    assert_eq!(r.read_i64(), Ok(-1));
}

#[test]
fn leb128_too_long_or_too_large_is_malformed() {
    let mut r = Reader::new(&[0xff, 0xff, 0xff, 0xff, 0x1f]);
    assert_eq!(r.read_u32(), Err(DecodeError::MalformedInteger));
    let mut r = Reader::new(&[0x80, 0x80, 0x80, 0x80, 0x80, 0x00]);
    assert_eq!(r.read_u32(), Err(DecodeError::MalformedInteger));
    let mut r = Reader::new(&[0x80, 0x80]);
    assert_eq!(r.read_u32(), Err(DecodeError::UnexpectedEndOfBytes));
}

#[test]
fn float_bits_are_little_endian() {
    let mut r = Reader::new(&[0, 0, 0x28, 0x41]);
    assert_eq!(r.read_f32_bits(), Ok(10.5f32.to_bits()));
    let mut r = Reader::new(&[0, 0, 0, 0, 0, 0, 0x25, 0x40]);
    assert_eq!(r.read_f64_bits(), Ok(10.5f64.to_bits()));
    let mut r = Reader::new(&[0, 0, 0x28]);
    assert_eq!(r.read_f32_bits(), Err(DecodeError::UnexpectedEndOfBytes));
}

#[test]
fn reader_reads_slices() {
    let data = [1, 2, 3, 4];
    let mut r = Reader::new(&data);
    assert_eq!(r.read_u8(), Ok(1));
    assert_eq!(r.peek_u8(), Ok(2));
    assert_eq!(r.read(2), Ok(&data[1..3]));
    assert_eq!(r.read(2), Err(DecodeError::UnexpectedEndOfBytes));
    r.unread_u8();
    assert_eq!(r.position(), 2);
}

#[test]
fn bad_preamble() {
    assert_eq!(
        decode_err(&[0, 97, 115, 110, 1, 0, 0, 0]),
        DecodeError::InvalidMagic { value: [0, 97, 115, 110] }
    );
    assert_eq!(
        decode_err(&[0, 97, 115, 109, 2, 0, 0, 0]),
        DecodeError::InvalidVersion { value: [2, 0, 0, 0] }
    );
    assert_eq!(decode_err(&[0, 97, 115]), DecodeError::UnexpectedEndOfBytes);
    assert_eq!(decode_err(&[0, 97, 115, 109, 1, 0]), DecodeError::UnexpectedEndOfBytes);
}

#[test]
fn bad_section_id() {
    let m = with_sections(&[(12, &[])]);
    assert_eq!(decode_err(&m), DecodeError::InvalidSectionId { value: 12 });
}

#[test]
fn sections_out_of_order() {
    let m = with_sections(&[(3, &[0]), (1, &[0])]);
    assert_eq!(
        decode_err(&m),
        DecodeError::InvalidSectionOrder { last_section_id: 3, current_section_id: 1 }
    );
}

#[test]
fn custom_sections_may_come_anywhere() {
    let m = with_sections(&[(3, &[0]), (0, &[1, b'x', 9, 9]), (1, &[0])]);
    assert_eq!(
        decode_err(&m),
        DecodeError::InvalidSectionOrder { last_section_id: 3, current_section_id: 1 }
    );
    let m = with_sections(&[(0, &[1, b'x']), (1, &[0]), (0, &[0])]);
    assert!(Module::decode(&m).is_ok());
}

#[test]
fn section_must_be_filled_exactly() {
    let m = with_sections(&[(1, &[0, 0])]);
    assert_eq!(
        decode_err(&m),
        DecodeError::InvalidSectionSize { section_id: 1, expected_size: 2, actual_size: 1 }
    );
}

#[test]
fn section_past_the_end() {
    let mut m = PREAMBLE.to_vec();
    m.extend_from_slice(&[1, 5, 0]);
    assert_eq!(decode_err(&m), DecodeError::UnexpectedEndOfBytes);
}

#[test]
fn at_most_one_memory() {
    let m = with_sections(&[(5, &[2, 0, 1, 0, 1])]);
    assert_eq!(decode_err(&m), DecodeError::InvalidMemoryCount { value: 2 });
    let m = with_sections(&[(5, &[1, 1, 1, 2])]);
    let module = Module::decode(&m).expect("decode");
    let t = module.memory_type().expect("memory");
    assert_eq!((t.limits.min, t.limits.max), (1, Some(2)));
}

#[test]
fn bad_type_section() {
    let m = with_sections(&[(1, &[1, 0x61, 0, 0])]);
    assert_eq!(decode_err(&m), DecodeError::InvalidFuncTypeTag { value: 0x61 });
    let m = with_sections(&[(1, &[1, 0x60, 1, 0x7b, 0])]);
    assert_eq!(decode_err(&m), DecodeError::InvalidValType { value: 0x7b });
    let m = with_sections(&[(1, &[1, 0x60, 0, 2, 0x7f, 0x7f])]);
    assert_eq!(decode_err(&m), DecodeError::InvalidResultArity { value: 2 });
}

#[test]
fn bad_imports() {
    let m = with_sections(&[(2, &[1, 1, b'm', 1, b'n', 4, 0])]);
    assert_eq!(decode_err(&m), DecodeError::InvalidImportDescTag { value: 4 });
    let m = with_sections(&[(2, &[1, 1, 0xff, 1, b'n', 0, 0])]);
    assert!(matches!(decode_err(&m), DecodeError::InvalidUtf8(_)));
    let m = with_sections(&[(2, &[1, 1, b'm', 1, b'n', 1, 0x6f, 0, 0])]);
    assert_eq!(decode_err(&m), DecodeError::InvalidElemType { value: 0x6f });
    let m = with_sections(&[(2, &[1, 1, b'm', 1, b'n', 2, 2, 0])]);
    assert_eq!(decode_err(&m), DecodeError::InvalidLimitsFlag { value: 2 });
    let m = with_sections(&[(2, &[1, 1, b'm', 1, b'n', 3, 0x7f, 2])]);
    assert_eq!(decode_err(&m), DecodeError::InvalidMutabilityFlag { value: 2 });
}

#[test]
fn imports_and_exports_are_kept() {
    let m = with_sections(&[
        (2, &[1, 2, b'e', b'n', 1, b'g', 3, 0x7e, 1]),
        (7, &[1, 1, b'x', 3, 0]),
    ]);
    let module = Module::decode(&m).expect("decode");
    let imports = module.imports();
    assert_eq!(imports.len(), 1);
    assert_eq!(imports[0].module.as_str(), "en");
    assert_eq!(imports[0].name.as_str(), "g");
    assert!(matches!(imports[0].desc, Importdesc::Global(_)));
    let exports = module.exports();
    assert_eq!(exports[0].name.as_str(), "x");
    assert!(matches!(exports[0].desc, Exportdesc::Global(_)));
}

#[test]
fn bad_export_tag() {
    let m = with_sections(&[(7, &[1, 1, b'x', 4, 0])]);
    assert_eq!(decode_err(&m), DecodeError::InvalidExportDescTag { value: 4 });
    let m = with_sections(&[(7, &[1, 1, b'x', 2, 1])]);
    assert_eq!(decode_err(&m), DecodeError::InvalidMemIdx { value: 1 });
    let m = with_sections(&[(7, &[1, 1, b'x', 1, 1])]);
    assert_eq!(decode_err(&m), DecodeError::InvalidTableIdx { value: 1 });
}

#[test]
fn global_initialiser_must_be_one_constant() {
    let m = with_sections(&[(6, &[1, 0x7f, 0, 0x41, 1, 0x41, 2, 0x0b])]);
    assert_eq!(decode_err(&m), DecodeError::UnexpectedExpr);
    let m = with_sections(&[(6, &[1, 0x7f, 0, 0x41, 1, 0x0b])]);
    let module = Module::decode(&m).expect("decode");
    assert_eq!(module.globals().len(), 1);
}

#[test]
fn bad_opcode() {
    // a function whose body holds the opcode 0xff
    let m = with_sections(&[
        (1, &[1, 0x60, 0, 0]),
        (3, &[1, 0]),
        (10, &[1, 3, 0, 0xff, 0x0b]),
    ]);
    assert_eq!(decode_err(&m), DecodeError::InvalidOpcode { value: 0xff });
}

#[test]
fn code_is_decoded_into_instructions() {
    let m = with_sections(&[
        (1, &[1, 0x60, 0, 1, 0x7f]),
        (3, &[1, 0]),
        (10, &[1, 9, 1, 2, 0x7e, 0x41, 3, 0x42, 4, 0x1a, 0x0b]),
    ]);
    let module = Module::decode(&m).expect("decode");
    let codes = module.function_codes();
    assert_eq!(codes[0].locals, vec![Valtype::I64, Valtype::I64]);
    let instrs = codes[0].body.instrs();
    assert_eq!(instrs.len(), 3);
    assert!(matches!(instrs[0], Instr::I32Const(3)));
    assert!(matches!(instrs[1], Instr::I64Const(4)));
    assert!(matches!(instrs[2], Instr::Drop));
    assert_eq!(module.functions().len(), 1);
    assert_eq!(module.function_types()[0].params.len(), 0);
    assert!(module.instantiate().is_ok());
}

#[test]
fn start_and_table_sections() {
    let m = with_sections(&[
        (1, &[1, 0x60, 0, 0]),
        (3, &[1, 0]),
        (4, &[1, 0x70, 0, 3]),
        (8, &[0]),
        (10, &[1, 2, 0, 0x0b]),
    ]);
    let module = Module::decode(&m).expect("decode");
    assert_eq!(module.start_function().map(|f| f.get()), Some(0));
    assert_eq!(module.table_types()[0].limits.min, 3);
    assert!(module.elements().is_empty());
    assert!(module.data_segments().is_empty());
}

#[test]
fn section_ids_have_their_bytes() {
    assert_eq!(SectionId::Custom.id(), 0);
    assert_eq!(SectionId::Data.id(), 11);
    let mut r = Reader::new(&[10]);
    assert_eq!(<SectionId as Decode>::decode(&mut r), Ok(SectionId::Code));
}

#[test]
fn names_must_be_utf8() {
    let mut r = Reader::new(&[2, 0xc3, 0xa9]);
    let name = Name::decode(&mut r).expect("name");
    assert_eq!(name.as_str(), "é");
    assert_eq!(name.len(), 2);
    assert!(name.eq_str("é"));
    let mut r = Reader::new(&[1, 0xc3]);
    assert!(matches!(Name::decode(&mut r), Err(DecodeError::InvalidUtf8(_))));
}

#[test]
fn inspect_counts_parts() {
    let m = with_sections(&[
        (1, &[2, 0x60, 2, 0x7f, 0x7f, 1, 0x7f, 0x60, 0, 0]),
        (2, &[1, 2, b'e', b'n', 1, b'f', 0, 1]),
        (3, &[2, 0, 1]),
        (6, &[1, 0x7f, 1, 0x41, 0, 0x0b]),
        (7, &[1, 3, b'a', b'b', b'c', 0, 0]),
    ]);
    let spec = ModuleSpec::inspect(&m).expect("inspect");
    assert_eq!(spec.func_types, 2);
    assert_eq!(spec.val_types, 3);
    assert_eq!(spec.imports, 1);
    assert_eq!(spec.bytes, 6);
    assert_eq!(spec.idxs, 2);
    assert_eq!(spec.globals, 1);
    assert_eq!(spec.instrs, 1);
    assert_eq!(spec.exports, 1);
    assert_eq!(spec.table_types, 0);
}

#[test]
fn inspect_rejects_repeated_sections() {
    let m = with_sections(&[(1, &[0]), (1, &[0])]);
    assert_eq!(
        ModuleSpec::inspect(&m),
        Err(DecodeError::InvalidSectionOrder { last_section_id: 1, current_section_id: 1 })
    );
}

#[test]
fn symbols_decoders() {
    let mut r = Reader::new(&[0x40, 0x7e, 0x05]);
    assert_eq!(BlockType::decode(&mut r), Ok(BlockType::Empty));
    assert_eq!(BlockType::decode(&mut r), Ok(BlockType::Val(Valtype::I64)));
    assert_eq!(BlockType::decode(&mut r), Ok(BlockType::TypeIndex(S33(5))));
    assert_eq!(BlockType::Empty.arity(), 0);
    assert_eq!(BlockType::Val(Valtype::F32).arity(), 1);
    let mut r = Reader::new(&[0x7d, 1]);
    assert_eq!(GlobalType::decode(&mut r), Ok(GlobalType::Var(Valtype::F32)));
    let mut r = Reader::new(&[2, 8]);
    assert_eq!(MemArg::decode(&mut r), Ok(MemArg { align: 2, offset: 8 }));
    let mut r = Reader::new(&[0, 5]);
    assert!(matches!(ImportDesc::decode(&mut r), Ok(ImportDesc::Func(t)) if t.0 == 5));
    let mut r = Reader::new(&[3, 7]);
    assert!(matches!(ExportDesc::decode(&mut r), Ok(ExportDesc::Global(g)) if g.get() == 7));
    let l = LabelIdx::new(3);
    assert_eq!(l.increment().get(), 4);
}
