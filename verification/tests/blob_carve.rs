use wadup::blob::Blob;
use wadup::carve::Carve;
use wadup::types::HostError;

#[test]
fn blob_len_and_full_read() {
    let b = Blob::from_bytes(vec![1u8, 2, 3, 4]);
    assert_eq!(b.len(), 4);
    assert_eq!(b.read(0, 4), vec![1, 2, 3, 4]);
}

#[test]
fn blob_read_past_end_is_short() {
    let b = Blob::from_bytes(vec![10u8, 20, 30]);
    // a read reaching past the end yields only what is there
    assert_eq!(b.read(1, 10), vec![20, 30]);
}

#[test]
fn blob_read_at_end_is_empty() {
    let b = Blob::from_bytes(vec![10u8, 20, 30]);
    assert_eq!(b.read(3, 5), Vec::<u8>::new());
    assert_eq!(b.read(100, 5), Vec::<u8>::new());
}

#[test]
fn blob_carve_is_window() {
    let b = Blob::from_bytes(vec![0u8, 1, 2, 3, 4, 5]);
    let c = b.carve(2, 3).unwrap();
    assert_eq!(c.len(), 3);
    assert_eq!(c.read(0, 10), vec![2, 3, 4]);
}

#[test]
fn blob_carve_of_carve_nests() {
    let b = Blob::from_bytes(vec![0u8, 1, 2, 3, 4, 5, 6, 7]);
    let c = b.carve(2, 5).unwrap();
    let d = c.carve(1, 3).unwrap();
    assert_eq!(d.read(0, 10), vec![3, 4, 5]);
}

#[test]
fn carve_new_validates_bounds() {
    let b = Blob::from_bytes(vec![9u8; 8]);
    assert!(Carve::new(b.share(), 0, 8).is_ok());
    assert!(Carve::new(b.share(), 8, 0).is_ok());
    let r = Carve::new(b.share(), 5, 4);
    assert!(matches!(r, Err(HostError::CarveOutOfBounds)));
}

#[test]
fn carve_of_length_zero_is_allowed() {
    let b = Blob::from_bytes(vec![1u8, 2]);
    let c = Carve::new(b, 1, 0).unwrap();
    assert_eq!(c.as_blob().len(), 0);
}

#[test]
fn carve_as_blob_shares_content() {
    let b = Blob::from_bytes(vec![5u8, 6, 7, 8]);
    let c = Carve::new(b, 1, 2).unwrap();
    let w = c.as_blob();
    assert_eq!(w.read(0, 10), vec![6, 7]);
}
