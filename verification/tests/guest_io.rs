use wadup::blob::Blob;
use wadup::context::Context;
use wadup::guest::{SeekFrom, WadupInput, WadupOutput, WadupSchema};
use wadup::types::{DataValue, HostError};

fn ctx_over(bytes: Vec<u8>) -> Context {
    Context::new(Blob::from_bytes(bytes), 1 << 20, 100)
}

#[test]
fn input_reader_advances() {
    let ctx = ctx_over(vec![1, 2, 3, 4, 5]);
    let mut input = WadupInput::new(&ctx);
    assert_eq!(input.read(&ctx, 2), vec![1, 2]);
    assert_eq!(input.read(&ctx, 2), vec![3, 4]);
    // the tail read is short, and further reads yield nothing
    assert_eq!(input.read(&ctx, 2), vec![5]);
    assert_eq!(input.read(&ctx, 2), Vec::<u8>::new());
}

#[test]
fn input_seek_from_all_bases() {
    let ctx = ctx_over(vec![9u8; 10]);
    let mut input = WadupInput::new(&ctx);
    assert_eq!(input.seek(SeekFrom::Start(4)).unwrap(), 4);
    assert_eq!(input.seek(SeekFrom::Current(3)).unwrap(), 7);
    assert_eq!(input.seek(SeekFrom::Current(-7)).unwrap(), 0);
    assert_eq!(input.seek(SeekFrom::End(-2)).unwrap(), 8);
    assert_eq!(input.read(&ctx, 10), vec![9, 9]);
}

#[test]
fn input_seek_before_start_fails() {
    let ctx = ctx_over(vec![1u8, 2, 3]);
    let mut input = WadupInput::new(&ctx);
    let r = input.seek(SeekFrom::End(-4));
    assert!(matches!(r, Err(HostError::SeekOutOfRange)));
    // a failed seek leaves the position alone
    assert_eq!(input.read(&ctx, 1), vec![1]);
}

#[test]
fn output_write_read_seek_round_trip() {
    let mut ctx = ctx_over(vec![]);
    let mut out = WadupOutput::new(&mut ctx).unwrap();
    assert_eq!(out.write(&mut ctx, b"hello ").unwrap(), 6);
    assert_eq!(out.write(&mut ctx, b"world").unwrap(), 5);
    assert_eq!(out.len(&ctx), 11);
    assert_eq!(out.seek(&ctx, SeekFrom::Start(0)).unwrap(), 0);
    assert_eq!(out.read(&mut ctx, 11), b"hello world".to_vec());
}

#[test]
fn output_seek_end_uses_current_length() {
    let mut ctx = ctx_over(vec![]);
    let mut out = WadupOutput::new(&mut ctx).unwrap();
    out.write(&mut ctx, b"abcd").unwrap();
    assert_eq!(out.seek(&ctx, SeekFrom::End(-2)).unwrap(), 2);
    assert_eq!(out.read(&mut ctx, 10), b"cd".to_vec());
    assert!(out.flush().is_ok());
}

#[test]
fn guest_metadata_flow() {
    // the flow of a simple plug-in: read the whole input, emit one row
    // with the text and its length
    let ctx_bytes = b"hi there".to_vec();
    let mut ctx = ctx_over(ctx_bytes.clone());
    let mut input = WadupInput::new(&ctx);
    let text = input.read(&ctx, 1024);
    assert_eq!(text, ctx_bytes);

    let schema = WadupSchema::new(&mut ctx, "schema1").unwrap();
    let col_data = schema.column_str(&mut ctx, "data").unwrap();
    let col_length = schema.column_i64(&mut ctx, "length").unwrap();
    col_data.value(&mut ctx, core::str::from_utf8(&text).unwrap());
    col_length.value(&mut ctx, text.len() as i64);
    let cells = schema.flush_row(&mut ctx).unwrap();

    assert_eq!(cells.len(), 2);
    assert_eq!(cells[0].schema, "schema1");
    assert_eq!(cells[0].column, "data");
    match &cells[0].value {
        DataValue::StringValue(s) => assert_eq!(s, "hi there"),
        other => panic!("unexpected value {:?}", other),
    }
    assert_eq!(cells[1].column, "length");
    assert!(matches!(cells[1].value, DataValue::Int64Value(8)));
}

#[test]
fn guest_float_column_carries_bits() {
    let mut ctx = ctx_over(vec![]);
    let schema = WadupSchema::new(&mut ctx, "numbers").unwrap();
    let col = schema.column_f64(&mut ctx, "ratio").unwrap();
    col.value(&mut ctx, (0.5f64).to_bits());
    let cells = schema.flush_row(&mut ctx).unwrap();
    match cells[0].value {
        DataValue::Float64Bits(bits) => assert_eq!(f64::from_bits(bits), 0.5),
        ref other => panic!("unexpected value {:?}", other),
    }
}

#[test]
fn guest_carve_records_requests() {
    let mut ctx = ctx_over(vec![0, 1, 2, 3]);
    // carve the first half of the input, as a fan-out plug-in would
    let half = WadupInput::new(&ctx).len / 2;
    assert!(WadupInput::carve(&mut ctx, 0, half).is_ok());
    assert!(WadupInput::carve(&mut ctx, 9, 9).is_err());
}

#[test]
fn schema_handles_share_one_interner() {
    let mut ctx = ctx_over(vec![]);
    let s1 = WadupSchema::new(&mut ctx, "one").unwrap();
    let s2 = WadupSchema::new(&mut ctx, "two").unwrap();
    let s1_again = WadupSchema::new(&mut ctx, "one").unwrap();
    assert_eq!(s1.schema_index, 1);
    assert_eq!(s2.schema_index, 2);
    assert_eq!(s1_again.schema_index, s1.schema_index);
}
