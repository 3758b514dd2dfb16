use testchamber::normalized_regs::{u64_to_hex, I64Regs, Regs};
use testchamber::memtable::MetaMemoryTable;
use testchamber::syscall_table::{RawRow, SyscallTable};

fn table_with(number: u64, name: &str) -> SyscallTable {
    let rows = vec![RawRow {
        number: Some(number),
        name: Some(name.to_owned()),
        arg_types: Vec::new(),
    }];
    SyscallTable::new(&rows).unwrap()
}

#[test]
fn hex_of_zero_is_one_digit() {
    assert_eq!(u64_to_hex(0), "0");
}

#[test]
fn hex_has_no_leading_zeros_and_is_lowercase() {
    assert_eq!(u64_to_hex(0xff), "ff");
    assert_eq!(u64_to_hex(0xdead_beef), "deadbeef");
    assert_eq!(u64_to_hex(16), "10");
    assert_eq!(u64_to_hex(u64::MAX), "ffffffffffffffff");
}

#[test]
fn format_prints_normalized_identifiers_in_hex() {
    let t = table_with(1, "write");
    let mut mt = MetaMemoryTable::new();
    let regs = Regs { orig_rax: 1, rdi: 0xff, rsi: 0x7000_0000, rdx: 0x2000, rax: 0x10 };
    let nr = I64Regs::from_regs(&regs, &mut mt).unwrap();
    assert_eq!(nr.format(&t), "write(0, 1, 2, ...) = 3");
}

#[test]
fn format_reuses_identifiers_for_repeated_raw_values() {
    let t = table_with(1, "write");
    let mut mt = MetaMemoryTable::new();
    // All four registers carry the same raw value: one namespace per call
    // number, so they collapse to one identifier.
    let regs = Regs { orig_rax: 1, rdi: 0xabc, rsi: 0xabc, rdx: 0xabc, rax: 0xabc };
    let nr = I64Regs::from_regs(&regs, &mut mt).unwrap();
    assert_eq!(nr.rdi, 0);
    assert_eq!(nr.rsi, 0);
    assert_eq!(nr.rdx, 0);
    assert_eq!(nr.rax, 0);
    assert_eq!(nr.format(&t), "write(0, 0, 0, ...) = 0");
}

#[test]
fn format_uses_the_placeholder_for_an_unknown_syscall() {
    let t = table_with(1, "write");
    let call = I64Regs { orig_rax: 777, rdi: 0, rsi: 1, rdx: 2, rax: 3 };
    assert_eq!(call.format(&t), "unknown(0, 1, 2, ...) = 3");
}

#[test]
fn format_prints_a_negative_identifier_as_its_bit_pattern() {
    let t = table_with(1, "write");
    let call = I64Regs { orig_rax: 1, rdi: -1, rdx: 0, rsi: 0, rax: -2 };
    assert_eq!(call.format(&t), "write(ffffffffffffffff, 0, 0, ...) = fffffffffffffffe");
}
