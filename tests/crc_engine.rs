use png_crc::crc::{build_table, checksum, CrcManager};

fn reduce(seed: u32) -> u32 {
    let mut c = seed;
    for _ in 0..8 {
        if c & 1 == 1 {
            c = 0xedb88320 ^ (c >> 1);
        } else {
            c >>= 1;
        }
    }
    c
}

#[test]
fn table_entries_follow_eight_rounds() {
    let table = CrcManager::make_crc_table();
    assert_eq!(table.len(), 256);
    for i in 0..256u32 {
        assert_eq!(table[i as usize], reduce(i));
    }
}

#[test]
fn table_known_entries() {
    let table = CrcManager::make_crc_table();
    assert_eq!(table[0], 0x00000000);
    assert_eq!(table[1], 0x77073096);
    assert_eq!(table[2], 0xee0e612c);
    assert_eq!(table[128], 0xedb88320);
    assert_eq!(table[255], 0x2d02ef8d);
}

#[test]
fn checksum_of_empty_input_is_zero() {
    let table = build_table();
    assert_eq!(checksum(&table, b""), 0x00000000);
    assert_eq!(table.crc(b""), 0);
}

#[test]
fn checksum_of_check_string() {
    let table = build_table();
    assert_eq!(checksum(&table, b"123456789"), 0xCBF43926);
}

#[test]
fn checksum_of_chunk_tags() {
    let table = build_table();
    assert_eq!(checksum(&table, b"IEND"), 0xae426082);
    assert_eq!(checksum(&table, b"AAAA"), 0x9b0d08f1);
}

#[test]
fn checksum_reproducible_across_calls_and_tables() {
    let first = build_table();
    let second = build_table();
    let input: Vec<u8> = (0..=255u8).chain(b"chunk".iter().copied()).collect();
    let a = checksum(&first, &input);
    let b = checksum(&first, &input);
    let c = checksum(&second, &input);
    assert_eq!(a, b);
    assert_eq!(a, c);
}

#[test]
fn update_crc_continues_a_running_value() {
    let table = build_table();
    let head = table.update_crc(0xffffffff, b"1234");
    let whole = table.update_crc(head, b"56789") ^ 0xffffffff;
    assert_eq!(whole, 0xCBF43926);
    assert_eq!(table.update_crc(0x12345678, b""), 0x12345678);
}
