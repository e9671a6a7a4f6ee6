use stackjit::code::{AssembleError, Relocatable, Relocation};
use stackjit::reloc::{InvalidRelocationReason, RelocationKind};
use stackjit::{Symbol, SymbolCounter};

#[test]
fn pc32_round_trip() {
    let mut buf: Vec<u8> = vec![0xaa; 8];
    RelocationKind::Pc32.apply_relative(&mut buf, 2, 0x1000).unwrap();
    // displacement = 0x1000 - 2 = 0xffe, little-endian
    assert_eq!(buf, vec![0xaa, 0xaa, 0xfe, 0x0f, 0x00, 0x00, 0xaa, 0xaa]);

    let mut buf: Vec<u8> = vec![0; 4];
    RelocationKind::Pc32.apply_relative(&mut buf, 4, 0).unwrap_err();
}

#[test]
fn pc32_negative_displacement() {
    let mut buf: Vec<u8> = vec![0; 8];
    RelocationKind::Pc32.apply_relative(&mut buf, 4, 1).unwrap();
    // displacement = 1 - 4 = -3 in two's complement
    assert_eq!(buf, vec![0, 0, 0, 0, 0xfd, 0xff, 0xff, 0xff]);
}

#[test]
fn pc32_rejects_large_differences() {
    let mut buf: Vec<u8> = vec![0; 8];
    let r = RelocationKind::Pc32.apply_relative(&mut buf, 0, 0x1_0000_0000);
    assert!(matches!(r, Err(InvalidRelocationReason::DifferenceTooLarge)));
    assert_eq!(buf, vec![0; 8]);
}

#[test]
fn pc8_round_trip() {
    let mut buf: Vec<u8> = vec![0; 4];
    RelocationKind::Pc8.apply_relative(&mut buf, 1, 0x10).unwrap();
    assert_eq!(buf, vec![0, 0x0f, 0, 0]);

    let mut buf: Vec<u8> = vec![0; 4];
    let r = RelocationKind::Pc8.apply_relative(&mut buf, 0, 0x100);
    assert!(matches!(r, Err(InvalidRelocationReason::DifferenceTooLarge)));
}

#[test]
fn direct64_round_trip() {
    let mut buf: Vec<u8> = vec![0xff; 8];
    RelocationKind::Direct64.apply_absolute(&mut buf, 0, -2).unwrap();
    assert_eq!(buf, vec![0xfe, 0xff, 0xff, 0xff, 0xff, 0xff, 0xff, 0xff]);

    let mut buf: Vec<u8> = vec![0; 8];
    RelocationKind::Direct64.apply_absolute(&mut buf, 0, 0x0102030405060708).unwrap();
    assert_eq!(buf, vec![0x08, 0x07, 0x06, 0x05, 0x04, 0x03, 0x02, 0x01]);
}

#[test]
fn direct32_ranges() {
    let mut buf: Vec<u8> = vec![0; 4];
    RelocationKind::Direct32.apply_absolute(&mut buf, 0, 0xffff_ffff).unwrap();
    assert_eq!(buf, vec![0xff, 0xff, 0xff, 0xff]);

    let mut buf: Vec<u8> = vec![0; 4];
    let r = RelocationKind::Direct32.apply_absolute(&mut buf, 0, -1);
    assert!(matches!(r, Err(InvalidRelocationReason::ValueOutOfRange)));

    let mut buf: Vec<u8> = vec![0; 4];
    RelocationKind::Direct32S.apply_absolute(&mut buf, 0, -1).unwrap();
    assert_eq!(buf, vec![0xff, 0xff, 0xff, 0xff]);

    let mut buf: Vec<u8> = vec![0; 4];
    let r = RelocationKind::Direct32S.apply_absolute(&mut buf, 0, 0x8000_0000);
    assert!(matches!(r, Err(InvalidRelocationReason::ValueOutOfRange)));
}

#[test]
fn kinds_refuse_the_wrong_mode() {
    let mut buf: Vec<u8> = vec![0; 8];
    assert!(matches!(
        RelocationKind::Direct64.apply_relative(&mut buf, 0, 4),
        Err(InvalidRelocationReason::DisallowedModeForKind)
    ));
    assert!(matches!(
        RelocationKind::Pc32.apply_absolute(&mut buf, 0, 4),
        Err(InvalidRelocationReason::DisallowedModeForKind)
    ));
}

#[test]
fn assemble_resolves_relative_symbols() {
    let mut r = Relocatable::from_bytes(vec![0, 0, 0, 0, 0xaa]);
    let sym = Symbol::new_global("target".to_string());
    r.push_symbol(sym.clone(), 5);
    r.push_relocation(Relocation::new(0, RelocationKind::Pc32, sym, 0));
    let bytes = r.assemble().unwrap();
    assert_eq!(bytes, vec![5, 0, 0, 0, 0xaa]);
}

#[test]
fn assemble_resolves_absolute_symbols() {
    let mut r = Relocatable::from_bytes(vec![0; 8]);
    let sym = Symbol::new_global("value".to_string());
    r.push_abs_symbol(sym.clone(), 0x1234);
    r.push_relocation(Relocation::new(0, RelocationKind::Direct64, sym, 1));
    let bytes = r.assemble().unwrap();
    assert_eq!(bytes, vec![0x35, 0x12, 0, 0, 0, 0, 0, 0]);
}

#[test]
fn assemble_reports_undefined_and_duplicate_symbols() {
    let mut r = Relocatable::from_bytes(vec![0; 4]);
    let sym = Symbol::new_global("missing".to_string());
    r.push_relocation(Relocation::new(0, RelocationKind::Pc32, sym, 0));
    assert!(matches!(r.assemble(), Err(AssembleError::UndefinedSymbol(_))));

    let mut r = Relocatable::from_bytes(vec![0; 4]);
    let sym = Symbol::new_global("twice".to_string());
    r.push_symbol(sym.clone(), 0);
    r.push_symbol(sym, 1);
    assert!(matches!(r.assemble(), Err(AssembleError::MultiplyDefinedSymbol(_))));
}

#[test]
fn concatenation_shifts_offsets() {
    let mut counter = SymbolCounter::new();
    let mut a = Relocatable::from_bytes(vec![1, 2, 3]);
    let mut b = Relocatable::from_bytes(vec![4, 5]);
    let sym = Symbol::new_local(&mut counter);
    b.push_symbol(sym.clone(), 1);
    b.push_relocation(Relocation::new(0, RelocationKind::Pc32, sym, 0));

    a.add_assign(&b);
    assert_eq!(a.data, vec![1, 2, 3, 4, 5]);
    // the symbol defined at offset 1 of `b` now sits at 3 + 1
    assert_eq!(a.symbols.len(), 1);
    assert_eq!(a.symbols[0].1, 4);
    // the relocation at offset 0 of `b` now patches offset 3
    assert_eq!(a.relocations.len(), 1);
    assert_eq!(a.relocations[0].location, 3);
}

#[test]
fn concatenation_pads_for_alignment() {
    let mut a = Relocatable::from_bytes(vec![1, 2, 3]);
    let mut b = Relocatable::from_bytes(vec![9]);
    b.alignment = 2;  // align to 4 bytes
    a.add_assign(&b);
    assert_eq!(a.data, vec![1, 2, 3, 0, 9]);
    assert_eq!(a.alignment, 2);
}

#[test]
fn concatenation_is_associative_without_alignment() {
    let mut counter = SymbolCounter::new();
    let make = |tag: u8, counter: &mut SymbolCounter| {
        let mut r = Relocatable::from_bytes(vec![0, 0, 0, 0, tag]);
        let sym = Symbol::new_local(counter);
        r.push_symbol(sym.clone(), 5);
        r.push_relocation(Relocation::new(0, RelocationKind::Pc32, sym, 0));
        r
    };
    let a1 = make(0xa1, &mut counter);
    let b1 = make(0xb2, &mut counter);
    let c1 = make(0xc3, &mut counter);

    let mut counter = SymbolCounter::new();
    let a2 = make(0xa1, &mut counter);
    let b2 = make(0xb2, &mut counter);
    let c2 = make(0xc3, &mut counter);

    let left = a1.add(&b1).add(&c1);
    let right = a2.add(&b2.add(&c2));
    assert_eq!(left.assemble().unwrap(), right.assemble().unwrap());
}

#[test]
fn offset_shifting_resolves_after_concatenation() {
    // `a` branches to a symbol that only `b` defines; after `a + b` the
    // symbol resolves to its offset within `b`, shifted by `a`'s length.
    let mut counter = SymbolCounter::new();
    let sym = Symbol::new_local(&mut counter);
    let mut a = Relocatable::from_bytes(vec![0, 0, 0, 0]);
    a.push_relocation(Relocation::new(0, RelocationKind::Pc32, sym.clone(), 0));
    let mut b = Relocatable::from_bytes(vec![0xcc]);
    b.push_symbol(sym, 1);
    let combined = a.add(&b);
    assert_eq!(combined.assemble().unwrap(), vec![5, 0, 0, 0, 0xcc]);
}
