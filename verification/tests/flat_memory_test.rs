use pesim_rs::cpu::pimcpu_types::fatptr_rf;
use pesim_rs::memory::flat_memory::{cpu_flat_mem, pe_flat_mem};

#[test]
fn host_cacheline_splits_into_little_endian_CPU_Data_entries() {
    let mut memory = cpu_flat_mem::new();
    let payload = [
        0x1122_3344_5566_7788,
        0x3fd7_d81c_0000_0002,
        0x0000_0014_0000_0014,
        0,
        0,
        0,
        0,
        0,
    ];

    memory.mirror_host_write(4, &payload);

    assert_eq!(
        memory.mem_read_data(4),
        Some([0x5566_7788, 0x1122_3344, 2, 0x3fd7_d81c])
    );
    assert_eq!(memory.mem_read_data(5), Some([0x14, 0x14, 0, 0]));
}

#[test]
fn absent_read_returns_zero_without_claiming_an_entry_type() {
    let mut memory = pe_flat_mem::new();

    assert_eq!(memory.mem_read_v(9), Some([0; 8]));
    assert_eq!(memory.mem_write_s(9, 42), Some(()));
    assert_eq!(memory.mem_read_s(9), Some(42));
    assert_eq!(memory.mem_read_v(9), None);
}

#[test]
fn absent_CPU_reads_follow_data_and_fat_pointer_defaults_without_claiming() {
    let mut memory = cpu_flat_mem::new();

    assert_eq!(memory.mem_read_data(9), Some([0; 4]));
    assert_eq!(memory.mem_read_fptr(9), None);

    let fptr = fatptr_rf::new(2, 7);
    assert_eq!(memory.mem_write_fptr(9, &fptr), Some(()));
    assert_eq!(memory.mem_read_fptr(9), Some(fptr));
    assert_eq!(memory.mem_read_data(9), None);
}

#[test]
fn host_overwrite_preserves_an_established_entry_type() {
    let mut memory = pe_flat_mem::new();
    let mut first_payload = [0; 8];
    first_payload[0] = u64::from_le_bytes([1, 0, 2, 0, 3, 0, 4, 0]);
    first_payload[1] = u64::from_le_bytes([5, 0, 6, 0, 7, 0, 8, 0]);
    memory.mirror_host_write(0, &first_payload);
    assert_eq!(memory.mem_read_v(0), Some([1, 2, 3, 4, 5, 6, 7, 8]));

    let mut second_payload = [0; 8];
    second_payload[0] = u64::from_le_bytes([8, 0, 7, 0, 6, 0, 5, 0]);
    second_payload[1] = u64::from_le_bytes([4, 0, 3, 0, 2, 0, 1, 0]);
    memory.mirror_host_write(0, &second_payload);

    assert_eq!(memory.mem_read_v(0), Some([8, 7, 6, 5, 4, 3, 2, 1]));
    assert_eq!(memory.mem_read_s(0), None);
}

#[test]
fn host_bytes_decode_the_CPU_FatPtr_layout() {
    let mut memory = cpu_flat_mem::new();
    let mut payload = [0; 8];
    payload[0] = ((3_u64) << 28) | 0x0123_4567;
    memory.mirror_host_write(12, &payload);

    let fptr = memory
        .mem_read_fptr(12)
        .expect("host-initialized fat pointer should decode");
    assert_eq!(fptr.get_idx(), 3);
    assert_eq!(fptr.get_offset(), 0x0123_4567);
}
