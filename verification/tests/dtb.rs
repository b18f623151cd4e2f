use aclint::{BoardInfo, DtbError};

// Property-name strings block shared by the tests, and the offset of each
// name in it.
const STRINGS: &[u8] = b"timebase-frequency\0reg\0#address-cells\0#size-cells\0";
const TIMEBASE_OFF: u32 = 0;
const REG_OFF: u32 = 19;
const ADDR_CELLS_OFF: u32 = 23;
const SIZE_CELLS_OFF: u32 = 38;

fn push_u32(v: &mut Vec<u8>, x: u32) {
    v.extend_from_slice(&x.to_be_bytes());
}

fn node_begin(v: &mut Vec<u8>, name: &str) {
    push_u32(v, 1);
    let mut b = name.as_bytes().to_vec();
    b.push(0);
    while b.len() % 4 != 0 {
        b.push(0);
    }
    v.extend_from_slice(&b);
}

fn node_end(v: &mut Vec<u8>) {
    push_u32(v, 2);
}

fn prop(v: &mut Vec<u8>, nameoff: u32, payload: &[u8]) {
    push_u32(v, 3);
    push_u32(v, payload.len() as u32);
    push_u32(v, nameoff);
    let mut b = payload.to_vec();
    while b.len() % 4 != 0 {
        b.push(0);
    }
    v.extend_from_slice(&b);
}

fn root_open(v: &mut Vec<u8>) {
    push_u32(v, 1);
    push_u32(v, 0);
}

fn root_close(v: &mut Vec<u8>) {
    push_u32(v, 2);
    push_u32(v, 9);
}

/// Wrap a finished structure block and a strings block in a header and an
/// empty memory-reservation block.
fn wrap(structure: &[u8], strings: &[u8]) -> Vec<u8> {
    let off_struct: u32 = 56;
    let size_struct = structure.len() as u32;
    let off_strings = off_struct + size_struct;
    let size_strings = strings.len() as u32;
    let total = off_strings + size_strings;
    let mut v = Vec::new();
    push_u32(&mut v, 0xd00dfeed);
    push_u32(&mut v, total);
    push_u32(&mut v, off_struct);
    push_u32(&mut v, off_strings);
    push_u32(&mut v, 40);
    push_u32(&mut v, 17);
    push_u32(&mut v, 16);
    push_u32(&mut v, 0);
    push_u32(&mut v, size_strings);
    push_u32(&mut v, size_struct);
    v.extend_from_slice(&[0u8; 16]);
    v.extend_from_slice(structure);
    v.extend_from_slice(strings);
    v
}

/// The minimal synthetic blob: two cpu nodes, a 4-byte timebase frequency,
/// one uart under soc.
fn minimal_blob() -> Vec<u8> {
    let mut st = Vec::new();
    root_open(&mut st);
    node_begin(&mut st, "cpus");
    prop(&mut st, TIMEBASE_OFF, &10_000_000u32.to_be_bytes());
    node_begin(&mut st, "cpu@0");
    node_end(&mut st);
    node_begin(&mut st, "cpu@1");
    node_end(&mut st);
    node_end(&mut st);
    node_begin(&mut st, "soc");
    node_begin(&mut st, "uart@10000000");
    let mut reg = Vec::new();
    push_u32(&mut reg, 0);
    push_u32(&mut reg, 0x1000_0000);
    push_u32(&mut reg, 0x100);
    prop(&mut st, REG_OFF, &reg);
    node_end(&mut st);
    node_end(&mut st);
    root_close(&mut st);
    wrap(&st, STRINGS)
}

#[test]
fn minimal_blob_yields_board_info() {
    let blob = minimal_blob();
    assert_eq!(
        BoardInfo::parse(&blob),
        Ok(BoardInfo { smp: 2, frequency: 10_000_000, uart: 0x1000_0000 })
    );
}

#[test]
fn first_uart_wins_second_tolerated() {
    let mut st = Vec::new();
    root_open(&mut st);
    node_begin(&mut st, "soc");
    for (name, addr) in [("uart@1000", 0x1000u32), ("uart@2000", 0x2000u32)] {
        node_begin(&mut st, name);
        let mut reg = Vec::new();
        push_u32(&mut reg, 0);
        push_u32(&mut reg, addr);
        push_u32(&mut reg, 0x100);
        prop(&mut st, REG_OFF, &reg);
        node_end(&mut st);
    }
    node_end(&mut st);
    root_close(&mut st);
    let blob = wrap(&st, STRINGS);
    assert_eq!(
        BoardInfo::parse(&blob),
        Ok(BoardInfo { smp: 0, frequency: 0, uart: 0x1000 })
    );
}

#[test]
fn serial_prefix_matches_too() {
    let mut st = Vec::new();
    root_open(&mut st);
    node_begin(&mut st, "soc");
    node_begin(&mut st, "serial@3000");
    let mut reg = Vec::new();
    push_u32(&mut reg, 0);
    push_u32(&mut reg, 0x3000);
    push_u32(&mut reg, 0x100);
    prop(&mut st, REG_OFF, &reg);
    node_end(&mut st);
    node_end(&mut st);
    root_close(&mut st);
    let blob = wrap(&st, STRINGS);
    assert_eq!(BoardInfo::parse(&blob).unwrap().uart, 0x3000);
}

#[test]
fn missing_cpus_keeps_defaults() {
    let mut st = Vec::new();
    root_open(&mut st);
    node_begin(&mut st, "soc");
    node_begin(&mut st, "uart@1000");
    let mut reg = Vec::new();
    push_u32(&mut reg, 0);
    push_u32(&mut reg, 0x1000);
    push_u32(&mut reg, 0x100);
    prop(&mut st, REG_OFF, &reg);
    node_end(&mut st);
    node_end(&mut st);
    root_close(&mut st);
    let blob = wrap(&st, STRINGS);
    assert_eq!(
        BoardInfo::parse(&blob),
        Ok(BoardInfo { smp: 0, frequency: 0, uart: 0x1000 })
    );
}

#[test]
fn empty_root_yields_all_defaults() {
    let mut st = Vec::new();
    root_open(&mut st);
    root_close(&mut st);
    let blob = wrap(&st, STRINGS);
    assert_eq!(
        BoardInfo::parse(&blob),
        Ok(BoardInfo { smp: 0, frequency: 0, uart: 0 })
    );
}

#[test]
fn corrupted_magic_is_fatal() {
    let mut blob = minimal_blob();
    blob[0] = 0x0b;
    assert_eq!(BoardInfo::parse(&blob), Err(DtbError::Magic(0x0b0d_feed)));
}

#[test]
fn eight_byte_frequency_decodes() {
    let mut st = Vec::new();
    root_open(&mut st);
    node_begin(&mut st, "cpus");
    prop(&mut st, TIMEBASE_OFF, &1_000_000_000u64.to_be_bytes());
    node_end(&mut st);
    root_close(&mut st);
    let blob = wrap(&st, STRINGS);
    assert_eq!(BoardInfo::parse(&blob).unwrap().frequency, 1_000_000_000);
}

#[test]
fn address_cells_override_is_honored() {
    let mut st = Vec::new();
    root_open(&mut st);
    node_begin(&mut st, "soc");
    prop(&mut st, ADDR_CELLS_OFF, &1u32.to_be_bytes());
    prop(&mut st, SIZE_CELLS_OFF, &1u32.to_be_bytes());
    node_begin(&mut st, "uart@9000");
    let mut reg = Vec::new();
    push_u32(&mut reg, 0x9000);
    push_u32(&mut reg, 0x100);
    prop(&mut st, REG_OFF, &reg);
    node_end(&mut st);
    node_end(&mut st);
    root_close(&mut st);
    let blob = wrap(&st, STRINGS);
    assert_eq!(BoardInfo::parse(&blob).unwrap().uart, 0x9000);
}

#[test]
fn unrelated_nodes_are_stepped_over() {
    let mut st = Vec::new();
    root_open(&mut st);
    node_begin(&mut st, "memory@80000000");
    // A property of a skipped node is never resolved: a wild name offset in
    // it must not disturb the walk.
    prop(&mut st, 9999, &[1, 2, 3, 4]);
    node_begin(&mut st, "child");
    node_end(&mut st);
    node_end(&mut st);
    node_begin(&mut st, "cpus");
    node_begin(&mut st, "cpu@0");
    node_end(&mut st);
    node_end(&mut st);
    root_close(&mut st);
    let blob = wrap(&st, STRINGS);
    assert_eq!(BoardInfo::parse(&blob).unwrap().smp, 1);
}

#[test]
fn nop_tokens_are_skipped() {
    let mut st = Vec::new();
    root_open(&mut st);
    push_u32(&mut st, 4);
    node_begin(&mut st, "cpus");
    push_u32(&mut st, 4);
    node_begin(&mut st, "cpu@0");
    node_end(&mut st);
    node_end(&mut st);
    root_close(&mut st);
    let blob = wrap(&st, STRINGS);
    assert_eq!(BoardInfo::parse(&blob).unwrap().smp, 1);
}

#[test]
fn short_buffer_is_truncated() {
    let blob = minimal_blob();
    assert_eq!(BoardInfo::parse(&blob[..30]), Err(DtbError::Truncated));
}

#[test]
fn total_size_beyond_buffer_is_truncated() {
    let blob = minimal_blob();
    assert_eq!(
        BoardInfo::parse(&blob[..blob.len() - 1]),
        Err(DtbError::Truncated)
    );
}

#[test]
fn old_version_is_fatal() {
    let mut blob = minimal_blob();
    blob[20..24].copy_from_slice(&16u32.to_be_bytes());
    assert_eq!(BoardInfo::parse(&blob), Err(DtbError::Version(16)));
}

#[test]
fn tiny_total_size_is_fatal() {
    let mut blob = minimal_blob();
    blob[4..8].copy_from_slice(&20u32.to_be_bytes());
    assert_eq!(BoardInfo::parse(&blob), Err(DtbError::TotalSize(20)));
}

#[test]
fn misaligned_memrsv_offset_is_fatal() {
    let mut blob = minimal_blob();
    blob[16..20].copy_from_slice(&42u32.to_be_bytes());
    assert_eq!(BoardInfo::parse(&blob), Err(DtbError::MemRsvMisaligned(42)));
}

#[test]
fn memrsv_offset_in_header_is_fatal() {
    let mut blob = minimal_blob();
    blob[16..20].copy_from_slice(&36u32.to_be_bytes());
    assert_eq!(BoardInfo::parse(&blob), Err(DtbError::MemRsvOffset(36)));
}

#[test]
fn misaligned_struct_offset_is_fatal() {
    let mut blob = minimal_blob();
    blob[8..12].copy_from_slice(&58u32.to_be_bytes());
    assert_eq!(BoardInfo::parse(&blob), Err(DtbError::StructMisaligned(58)));
}

#[test]
fn struct_offset_before_memrsv_is_fatal() {
    let mut blob = minimal_blob();
    blob[16..20].copy_from_slice(&48u32.to_be_bytes());
    blob[8..12].copy_from_slice(&44u32.to_be_bytes());
    assert_eq!(BoardInfo::parse(&blob), Err(DtbError::StructOffset(44)));
}

#[test]
fn oversized_struct_block_is_fatal() {
    let mut blob = minimal_blob();
    blob[36..40].copy_from_slice(&0x10000u32.to_be_bytes());
    assert_eq!(BoardInfo::parse(&blob), Err(DtbError::StructSize(0x10000)));
}

#[test]
fn struct_block_not_opening_with_root_is_fatal() {
    let mut blob = minimal_blob();
    blob[56..60].copy_from_slice(&9u32.to_be_bytes());
    assert_eq!(BoardInfo::parse(&blob), Err(DtbError::StructContent));
}

#[test]
fn struct_block_without_root_close_is_fatal() {
    let mut st = Vec::new();
    push_u32(&mut st, 1);
    push_u32(&mut st, 0);
    push_u32(&mut st, 9);
    let blob = wrap(&st, STRINGS);
    assert_eq!(BoardInfo::parse(&blob), Err(DtbError::StructContent));
}

#[test]
fn unknown_token_is_fatal() {
    let mut st = Vec::new();
    push_u32(&mut st, 1);
    push_u32(&mut st, 0);
    push_u32(&mut st, 7);
    push_u32(&mut st, 2);
    push_u32(&mut st, 9);
    let blob = wrap(&st, STRINGS);
    assert_eq!(BoardInfo::parse(&blob), Err(DtbError::StructContent));
}

#[test]
fn strings_offset_at_total_is_fatal() {
    let mut blob = minimal_blob();
    let total = u32::from_be_bytes(blob[4..8].try_into().unwrap());
    blob[12..16].copy_from_slice(&total.to_be_bytes());
    assert_eq!(BoardInfo::parse(&blob), Err(DtbError::StringsOffset(total)));
}

#[test]
fn oversized_strings_block_is_fatal() {
    let mut blob = minimal_blob();
    let ss = u32::from_be_bytes(blob[32..36].try_into().unwrap()) + 100;
    blob[32..36].copy_from_slice(&ss.to_be_bytes());
    assert_eq!(BoardInfo::parse(&blob), Err(DtbError::StringsSize(ss)));
}

#[test]
fn property_name_offset_outside_strings_is_fatal() {
    let mut st = Vec::new();
    root_open(&mut st);
    prop(&mut st, 9999, &[0, 0, 0, 1]);
    root_close(&mut st);
    let blob = wrap(&st, STRINGS);
    assert_eq!(BoardInfo::parse(&blob), Err(DtbError::StructContent));
}

#[test]
fn empty_reg_on_console_node_is_fatal() {
    let mut st = Vec::new();
    root_open(&mut st);
    node_begin(&mut st, "soc");
    node_begin(&mut st, "uart@0");
    prop(&mut st, REG_OFF, &[]);
    node_end(&mut st);
    node_end(&mut st);
    root_close(&mut st);
    let blob = wrap(&st, STRINGS);
    assert_eq!(BoardInfo::parse(&blob), Err(DtbError::RegEmpty));
}

#[test]
fn odd_frequency_width_is_fatal() {
    let mut st = Vec::new();
    root_open(&mut st);
    node_begin(&mut st, "cpus");
    prop(&mut st, TIMEBASE_OFF, &[1, 2, 3, 4, 5]);
    node_end(&mut st);
    root_close(&mut st);
    let blob = wrap(&st, STRINGS);
    assert_eq!(BoardInfo::parse(&blob), Err(DtbError::FrequencyWidth(5)));
}

#[test]
fn two_address_cells_fold_into_high_address() {
    let mut st = Vec::new();
    root_open(&mut st);
    node_begin(&mut st, "soc");
    node_begin(&mut st, "uart@120000000");
    let mut reg = Vec::new();
    push_u32(&mut reg, 0x1);
    push_u32(&mut reg, 0x2000_0000);
    push_u32(&mut reg, 0x100);
    prop(&mut st, REG_OFF, &reg);
    node_end(&mut st);
    node_end(&mut st);
    root_close(&mut st);
    let blob = wrap(&st, STRINGS);
    assert_eq!(BoardInfo::parse(&blob).unwrap().uart, 0x1_2000_0000);
}

#[test]
fn step_out_skips_rest_of_console_node() {
    // After the first `reg` hit the walk steps out of the node: a later
    // property with a wild name offset is never resolved.
    let mut st = Vec::new();
    root_open(&mut st);
    node_begin(&mut st, "soc");
    node_begin(&mut st, "uart@4000");
    let mut reg = Vec::new();
    push_u32(&mut reg, 0);
    push_u32(&mut reg, 0x4000);
    push_u32(&mut reg, 0x100);
    prop(&mut st, REG_OFF, &reg);
    prop(&mut st, 9999, &[1, 2, 3, 4]);
    node_end(&mut st);
    node_end(&mut st);
    root_close(&mut st);
    let blob = wrap(&st, STRINGS);
    assert_eq!(BoardInfo::parse(&blob).unwrap().uart, 0x4000);
}
