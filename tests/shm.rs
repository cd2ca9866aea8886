use mocha_compositor::shm::{ShmBuffer, ShmError, ShmFormat, ShmPool};

#[test]
fn read_back_equals_last_write() {
    let mut pool = ShmPool::new(64);
    assert_eq!(pool.size(), 64);
    let bytes: Vec<u8> = (0u8..32).collect();
    assert!(pool.write(8, &bytes));
    let buf = ShmBuffer { offset: 12, width: 2, height: 2, stride: 8, format: ShmFormat::Argb8888 };
    assert_eq!(pool.read_buffer(&buf).unwrap(), (4u8..20).collect::<Vec<u8>>());
    // A later write over part of the region is what is read then.
    assert!(pool.write(12, &[0xAA; 4]));
    let mut expected: Vec<u8> = vec![0xAA; 4];
    expected.extend(8u8..20);
    assert_eq!(pool.read_buffer(&buf).unwrap(), expected);
}

#[test]
fn fresh_pool_reads_zero() {
    let pool = ShmPool::new(16);
    let buf = ShmBuffer { offset: 0, width: 1, height: 4, stride: 4, format: ShmFormat::Xrgb8888 };
    assert_eq!(pool.read_buffer(&buf).unwrap(), vec![0u8; 16]);
}

#[test]
fn region_ending_at_pool_end_is_well_formed() {
    let mut pool = ShmPool::new(16);
    assert!(pool.write(0, &[7u8; 16]));
    let buf = ShmBuffer { offset: 8, width: 1, height: 2, stride: 4, format: ShmFormat::Xrgb8888 };
    assert_eq!(pool.read_buffer(&buf).unwrap(), vec![7u8; 8]);
}

#[test]
fn errors_for_bad_descriptors() {
    let pool = ShmPool::new(16);
    let past = ShmBuffer { offset: 9, width: 1, height: 2, stride: 4, format: ShmFormat::Xrgb8888 };
    assert_eq!(pool.read_buffer(&past), Err(ShmError::OutOfBounds));
    let far = ShmBuffer { offset: 100, width: 0, height: 0, stride: 0, format: ShmFormat::Xrgb8888 };
    assert_eq!(pool.read_buffer(&far), Err(ShmError::OutOfBounds));
}

#[test]
fn write_past_end_changes_nothing() {
    let mut pool = ShmPool::new(8);
    assert!(!pool.write(6, &[1, 2, 3]));
    assert!(!pool.write(9, &[]));
    assert!(pool.write(8, &[]));
    let buf = ShmBuffer { offset: 0, width: 2, height: 1, stride: 8, format: ShmFormat::Argb8888 };
    assert_eq!(pool.read_buffer(&buf).unwrap(), vec![0u8; 8]);
}

#[test]
fn any_region_within_the_pool_is_read() {
    let mut pool = ShmPool::new(4);
    assert!(pool.write(0, &[9, 8, 7, 6]));
    let buf = ShmBuffer { offset: 0, width: 1, height: 1, stride: 1, format: ShmFormat::Argb8888 };
    assert_eq!(pool.read_buffer(&buf).unwrap(), vec![9u8]);
    let wide = ShmBuffer { offset: 1, width: 2, height: 1, stride: 3, format: ShmFormat::Xrgb8888 };
    assert_eq!(pool.read_buffer(&wide).unwrap(), vec![8u8, 7, 6]);
}
