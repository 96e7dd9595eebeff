use wadup::bindings::{
    wadup_error, wadup_input_carve, wadup_input_len, wadup_input_read, wadup_metadata_column,
    wadup_metadata_flush_row, wadup_metadata_schema, wadup_metadata_value_f64,
    wadup_metadata_value_i64, wadup_metadata_value_str, wadup_output_create, wadup_output_len,
    wadup_output_read, wadup_output_write, wadup_read, wadup_string_from_buffer,
};
use wadup::blob::Blob;
use wadup::context::Context;
use wadup::types::{DataValue, HostError};

fn ctx_over(bytes: Vec<u8>) -> Context {
    Context::new(Blob::from_bytes(bytes), 1 << 20, 100)
}

#[test]
fn input_len_and_read() {
    let ctx = ctx_over(vec![1, 2, 3, 4, 5]);
    assert_eq!(wadup_input_len(&ctx), 5);
    assert_eq!(wadup_input_read(&ctx, 1, 3), vec![2, 3, 4]);
    // reading past end returns a short (possibly zero) count
    assert_eq!(wadup_input_read(&ctx, 4, 10), vec![5]);
    assert_eq!(wadup_input_read(&ctx, 9, 10), Vec::<u8>::new());
}

#[test]
fn raw_read_window() {
    let data = [1u8, 2, 3];
    assert_eq!(wadup_read(&data, 0, 2), vec![1, 2]);
    assert_eq!(wadup_read(&data, 2, 9), vec![3]);
    assert_eq!(wadup_read(&data, 3, 9), Vec::<u8>::new());
}

#[test]
fn carve_validates_and_records() {
    let mut ctx = ctx_over(vec![0, 1, 2, 3]);
    // a zero-length carve is allowed
    assert!(wadup_input_carve(&mut ctx, 4, 0).is_ok());
    assert!(wadup_input_carve(&mut ctx, 0, 2).is_ok());
    // offset + length strictly greater than the parent length fails
    let r = wadup_input_carve(&mut ctx, 3, 2);
    assert!(matches!(r, Err(HostError::CarveOutOfBounds)));
}

#[test]
fn output_write_then_read_round_trips() {
    let mut ctx = ctx_over(vec![]);
    let fd = wadup_output_create(&mut ctx).unwrap();
    assert_eq!(fd, 0);
    let memory = [0xaau8, 0xbb, 0xcc, 0xdd];
    wadup_output_write(&mut ctx, &memory, fd, 1, 10, 3).unwrap();
    let back = wadup_output_read(&ctx, fd, 10, 3).unwrap();
    assert_eq!(back, vec![0xbb, 0xcc, 0xdd]);
}

#[test]
fn output_write_zero_fills_gap() {
    let mut ctx = ctx_over(vec![]);
    let fd = wadup_output_create(&mut ctx).unwrap();
    let memory = [7u8, 8];
    wadup_output_write(&mut ctx, &memory, fd, 0, 4, 2).unwrap();
    assert_eq!(wadup_output_len(&ctx, fd).unwrap(), 6);
    let all = wadup_output_read(&ctx, fd, 0, 6).unwrap();
    assert_eq!(all, vec![0, 0, 0, 0, 7, 8]);
}

#[test]
fn output_descriptors_are_sequential() {
    let mut ctx = ctx_over(vec![]);
    assert_eq!(wadup_output_create(&mut ctx).unwrap(), 0);
    assert_eq!(wadup_output_create(&mut ctx).unwrap(), 1);
    assert_eq!(wadup_output_create(&mut ctx).unwrap(), 2);
}

#[test]
fn bad_output_fd_fails() {
    let mut ctx = ctx_over(vec![]);
    assert!(matches!(wadup_output_len(&ctx, 0), Err(HostError::BadOutputFd)));
    assert!(matches!(wadup_output_read(&ctx, 3, 0, 1), Err(HostError::BadOutputFd)));
    let memory = [1u8];
    assert!(matches!(
        wadup_output_write(&mut ctx, &memory, -1, 0, 0, 1),
        Err(HostError::BadOutputFd)
    ));
}

#[test]
fn write_out_of_guest_memory_fails() {
    let mut ctx = ctx_over(vec![]);
    let fd = wadup_output_create(&mut ctx).unwrap();
    let memory = [1u8, 2];
    let r = wadup_output_write(&mut ctx, &memory, fd, 1, 0, 2);
    assert!(matches!(r, Err(HostError::MemoryRangeOutOfBounds)));
}

#[test]
fn string_from_buffer_decodes_utf8() {
    let memory = b"..hello..".to_vec();
    let s = wadup_string_from_buffer(&memory, 2, 5).unwrap();
    assert_eq!(s, "hello");
}

#[test]
fn string_from_buffer_rejects_bad_range() {
    let memory = [b'a', b'b'];
    let r = wadup_string_from_buffer(&memory, 1, 2);
    assert!(matches!(r, Err(HostError::MemoryRangeOutOfBounds)));
}

#[test]
fn string_from_buffer_rejects_invalid_utf8() {
    let memory = [0xffu8, 0xfe];
    let r = wadup_string_from_buffer(&memory, 0, 2);
    assert!(matches!(r, Err(HostError::InvalidUtf8)));
}

#[test]
fn guest_error_carries_message() {
    let memory = b"boom".to_vec();
    let e = wadup_error(&memory, 0, 4);
    match e {
        HostError::GuestError(m) => assert_eq!(m, "boom"),
        other => panic!("unexpected error {:?}", other),
    }
}

#[test]
fn schema_ids_are_sequential_and_stable() {
    let mut ctx = ctx_over(vec![]);
    let memory = b"alphabeta".to_vec();
    let alpha = wadup_metadata_schema(&mut ctx, &memory, 0, 5).unwrap();
    let beta = wadup_metadata_schema(&mut ctx, &memory, 5, 4).unwrap();
    assert_eq!(alpha, 1);
    assert_eq!(beta, 2);
    // repeated interning of the same name yields the same id
    let alpha2 = wadup_metadata_schema(&mut ctx, &memory, 0, 5).unwrap();
    assert_eq!(alpha2, alpha);
}

#[test]
fn column_ids_are_sequential_per_schema_and_stable() {
    let mut ctx = ctx_over(vec![]);
    let memory = b"sizename".to_vec();
    let c1 = wadup_metadata_column(&mut ctx, &memory, 1, 0, 4, 2).unwrap();
    let c2 = wadup_metadata_column(&mut ctx, &memory, 1, 4, 4, 1).unwrap();
    let other = wadup_metadata_column(&mut ctx, &memory, 7, 4, 4, 1).unwrap();
    assert_eq!(c1, 1);
    assert_eq!(c2, 2);
    // ids restart within each schema
    assert_eq!(other, 1);
    // repeating a declaration yields the id it already has
    assert_eq!(wadup_metadata_column(&mut ctx, &memory, 1, 0, 4, 2).unwrap(), 1);
}

#[test]
fn flush_row_emits_declared_columns_in_order() {
    let mut ctx = ctx_over(vec![]);
    let memory = b"filesizenamehello.txt".to_vec();
    let schema = wadup_metadata_schema(&mut ctx, &memory, 0, 4).unwrap();
    let col_size = wadup_metadata_column(&mut ctx, &memory, schema, 4, 4, 2).unwrap();
    let col_name = wadup_metadata_column(&mut ctx, &memory, schema, 8, 4, 1).unwrap();
    wadup_metadata_value_i64(&mut ctx, schema, col_size, 42);
    wadup_metadata_value_str(&mut ctx, &memory, schema, col_name, 12, 9).unwrap();
    let cells = wadup_metadata_flush_row(&mut ctx, schema).unwrap();
    assert_eq!(cells.len(), 2);
    assert_eq!(cells[0].schema, "file");
    assert_eq!(cells[0].column, "size");
    assert!(matches!(cells[0].value, DataValue::Int64Value(42)));
    assert_eq!(cells[1].schema, "file");
    assert_eq!(cells[1].column, "name");
    match &cells[1].value {
        DataValue::StringValue(s) => assert_eq!(s, "hello.txt"),
        other => panic!("unexpected value {:?}", other),
    }
}

#[test]
fn flush_row_clears_pending_and_defaults_to_none() {
    let mut ctx = ctx_over(vec![]);
    let memory = b"filesize".to_vec();
    let schema = wadup_metadata_schema(&mut ctx, &memory, 0, 4).unwrap();
    let col = wadup_metadata_column(&mut ctx, &memory, schema, 4, 4, 2).unwrap();
    wadup_metadata_value_f64(&mut ctx, schema, col, (2.5f64).to_bits());
    let first = wadup_metadata_flush_row(&mut ctx, schema).unwrap();
    match first[0].value {
        DataValue::Float64Bits(bits) => assert_eq!(f64::from_bits(bits), 2.5),
        ref other => panic!("unexpected value {:?}", other),
    }
    // the pending row was cleared: a second flush reads the none default
    let second = wadup_metadata_flush_row(&mut ctx, schema).unwrap();
    assert!(matches!(second[0].value, DataValue::NoneValue));
}

#[test]
fn flush_row_unknown_schema_fails() {
    let mut ctx = ctx_over(vec![]);
    let r = wadup_metadata_flush_row(&mut ctx, 1);
    assert!(matches!(r, Err(HostError::SchemaIndexNotFound)));
}

#[test]
fn limiter_enforces_memory_and_table_caps() {
    let mut ctx = Context::new(Blob::from_bytes(vec![]), 1000, 10);
    assert_eq!(ctx.memory_growing(1000).unwrap(), true);
    assert!(matches!(ctx.memory_growing(1001), Err(HostError::MemoryLimitExceeded)));
    assert_eq!(ctx.table_growing(10).unwrap(), true);
    assert!(matches!(ctx.table_growing(11), Err(HostError::TableLimitExceeded)));
}
