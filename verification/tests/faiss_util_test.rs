use knn_jni_rs::faiss_util::{build_id_grouper_bitmap, FaissIDGrouperBitmap};

#[test]
fn test_bitmap_size_calculation() {
    let parent_ids = [128i32, 1024i32];
    let grouper = build_id_grouper_bitmap(&parent_ids);
    assert_eq!(*parent_ids.iter().max().unwrap(), 1024);
    assert_eq!(grouper.bitmap().len(), 17);
}

#[test]
fn test_bitmap_size_calculation_small() {
    let grouper = build_id_grouper_bitmap(&[63i32]);
    assert_eq!(grouper.bitmap().len(), 2);
}

#[test]
fn test_bitmap_size_calculation_zero() {
    let grouper = build_id_grouper_bitmap(&[0i32]);
    assert_eq!(grouper.bitmap().len(), 1);
}

#[test]
fn test_bitmap_bit_setting_logic() {
    let parent_ids = [128i32, 1024i32];
    let grouper = build_id_grouper_bitmap(&parent_ids);
    let bitmap = grouper.bitmap();
    assert_eq!(bitmap[2] & (1u64 << 0), 1);
    assert_eq!(bitmap[16] & (1u64 << 0), 1);
    assert_eq!(bitmap[0], 0);
    assert_eq!(bitmap[1], 0);
    assert_eq!(bitmap[3], 0);
}

#[test]
fn grouper_is_attached_later() {
    let mut grouper = build_id_grouper_bitmap(&[5i32, 5, 70]);
    assert_eq!(grouper.as_ptr(), FaissIDGrouperBitmap { address: 0 });
    grouper.attach(FaissIDGrouperBitmap { address: 48 });
    assert_eq!(grouper.as_ptr(), FaissIDGrouperBitmap { address: 48 });
    assert_eq!(grouper.bitmap(), &[1u64 << 5, 1u64 << 6]);
}
