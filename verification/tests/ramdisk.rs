use axdriver::dev::{DevError, DeviceType};
use axdriver::ramdisk::{RamDisk, BLOCK_SIZE};

#[test]
fn new_heap_rounds_up_to_whole_blocks() {
    let disk = RamDisk::new_heap(1000);
    assert_eq!(disk.len(), 1024);
    assert_eq!(disk.num_blocks(), 2);
    assert!(disk.deref().iter().all(|b| *b == 0));
}

#[test]
fn new_heap_exact_multiple_keeps_size() {
    let disk = RamDisk::new_heap(1024);
    assert_eq!(disk.len(), 1024);
    let disk = RamDisk::new_heap(1);
    assert_eq!(disk.len(), 512);
}

#[test]
fn new_heap_zero_is_empty() {
    let disk = RamDisk::new_heap(0);
    assert_eq!(disk.len(), 0);
    assert_eq!(disk.num_blocks(), 0);
}

#[test]
fn default_is_empty() {
    let mut disk = RamDisk::default();
    assert_eq!(disk.len(), 0);
    assert_eq!(disk.num_blocks(), 0);
    let mut buf = [0u8; 512];
    assert_eq!(disk.read_block(0, &mut buf), Err(DevError::InvalidParam));
}

#[test]
fn from_copies_data_and_pads_with_zeros() {
    let disk = RamDisk::from(&[1u8, 2, 3][..]);
    assert_eq!(disk.len(), 512);
    assert_eq!(&disk.deref()[..3], &[1, 2, 3]);
    assert!(disk.deref()[3..].iter().all(|b| *b == 0));
}

#[test]
fn new_static_uses_the_buffer() {
    let buf: &'static mut [u8] = Box::leak(vec![7u8; 1024].into_boxed_slice());
    let mut disk = RamDisk::new_static(buf);
    assert_eq!(disk.num_blocks(), 2);
    let mut out = [0u8; 512];
    assert_eq!(disk.read_block(1, &mut out), Ok(()));
    assert!(out.iter().all(|b| *b == 7));
    let data = [9u8; 512];
    assert_eq!(disk.write_block(0, &data), Ok(()));
    assert_eq!(disk.read_block(0, &mut out), Ok(()));
    assert_eq!(out, data);
}

#[test]
fn read_after_write_gives_back_the_data() {
    let mut disk = RamDisk::new_heap(4 * BLOCK_SIZE);
    let data: Vec<u8> = (0..1024).map(|i| (i % 251) as u8).collect();
    assert_eq!(disk.write_block(1, &data), Ok(()));
    let mut out = vec![0u8; 1024];
    assert_eq!(disk.read_block(1, &mut out), Ok(()));
    assert_eq!(out, data);
}

#[test]
fn write_keeps_other_blocks() {
    let mut disk = RamDisk::from(&[5u8; 2048][..]);
    assert_eq!(disk.write_block(2, &[1u8; 512]), Ok(()));
    let mut out = [0u8; 1024];
    assert_eq!(disk.read_block(0, &mut out), Ok(()));
    assert!(out.iter().all(|b| *b == 5));
    let mut last = [0u8; 512];
    assert_eq!(disk.read_block(3, &mut last), Ok(()));
    assert!(last.iter().all(|b| *b == 5));
}

#[test]
fn second_write_wins() {
    let mut disk = RamDisk::new_heap(512);
    assert_eq!(disk.write_block(0, &[1u8; 512]), Ok(()));
    assert_eq!(disk.write_block(0, &[2u8; 512]), Ok(()));
    let mut out = [0u8; 512];
    assert_eq!(disk.read_block(0, &mut out), Ok(()));
    assert!(out.iter().all(|b| *b == 2));
}

#[test]
fn partial_block_buffer_is_refused() {
    let mut disk = RamDisk::new_heap(1024);
    let mut buf = [3u8; 100];
    assert_eq!(disk.read_block(0, &mut buf), Err(DevError::InvalidParam));
    assert!(buf.iter().all(|b| *b == 3));
    assert_eq!(disk.write_block(0, &[1u8; 100]), Err(DevError::InvalidParam));
    assert!(disk.deref().iter().all(|b| *b == 0));
}

#[test]
fn request_past_the_end_is_refused() {
    let mut disk = RamDisk::new_heap(1024);
    let mut buf = [3u8; 1024];
    assert_eq!(disk.read_block(1, &mut buf), Err(DevError::InvalidParam));
    assert!(buf.iter().all(|b| *b == 3));
    assert_eq!(disk.write_block(2, &[1u8; 512]), Err(DevError::InvalidParam));
    assert_eq!(disk.write_block(1, &[1u8; 1024]), Err(DevError::InvalidParam));
    assert!(disk.deref().iter().all(|b| *b == 0));
    let mut last = [0u8; 512];
    assert_eq!(disk.read_block(1, &mut last), Ok(()));
}

#[test]
fn huge_block_id_is_refused() {
    let mut disk = RamDisk::new_heap(1024);
    let mut buf = [0u8; 512];
    assert_eq!(disk.read_block(u64::MAX, &mut buf), Err(DevError::InvalidParam));
    assert_eq!(disk.write_block(u64::MAX / 512, &buf), Err(DevError::InvalidParam));
}

#[test]
fn empty_buffer_at_the_end_is_accepted() {
    let mut disk = RamDisk::new_heap(1024);
    let mut buf: [u8; 0] = [];
    assert_eq!(disk.read_block(2, &mut buf), Ok(()));
    assert_eq!(disk.read_block(3, &mut buf), Err(DevError::InvalidParam));
}

#[test]
fn device_info() {
    let mut disk = RamDisk::new_heap(512);
    assert_eq!(disk.device_name(), "ramdisk");
    assert_eq!(disk.device_type(), DeviceType::Block);
    assert_eq!(disk.block_size(), 512);
    assert_eq!(disk.flush(), Ok(()));
}

#[test]
fn deref_mut_writes_through() {
    let mut disk = RamDisk::new_heap(512);
    disk.deref_mut()[10] = 42;
    let mut out = [0u8; 512];
    assert_eq!(disk.read_block(0, &mut out), Ok(()));
    assert_eq!(out[10], 42);
}

#[test]
fn operations_never_resize_the_disk() {
    let mut disk = RamDisk::new_heap(3 * BLOCK_SIZE);
    let mut buf = [0u8; 512];
    for i in 0..6u64 {
        let _ = disk.write_block(i, &[i as u8; 512]);
        let _ = disk.read_block(i, &mut buf);
        let _ = disk.write_block(i, &[1u8; 7]);
        let _ = disk.flush();
        assert_eq!(disk.len(), 3 * BLOCK_SIZE);
        assert_eq!(disk.num_blocks() as usize * disk.block_size(), disk.len());
    }
}

#[test]
fn operations_keep_the_backing_store() {
    let buf: &'static mut [u8] = Box::leak(vec![0u8; 1024].into_boxed_slice());
    let mut disk = RamDisk::new_static(buf);
    let mut out = [0u8; 512];
    assert_eq!(disk.write_block(1, &[4u8; 512]), Ok(()));
    assert_eq!(disk.read_block(1, &mut out), Ok(()));
    assert_eq!(disk.flush(), Ok(()));
    disk.deref_mut()[0] = 1;
    assert!(matches!(disk, RamDisk::Static(_)));
    let mut heap = RamDisk::new_heap(512);
    assert_eq!(heap.write_block(0, &[4u8; 512]), Ok(()));
    assert_eq!(heap.flush(), Ok(()));
    assert!(matches!(heap, RamDisk::Heap(_)));
}
