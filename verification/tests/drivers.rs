use aios_kernel::drivers::virtio_blk::{request_chain, status_result, StorageError, VIRTIO_BLK_T_IN, VIRTIO_BLK_T_OUT};
use aios_kernel::drivers::virtio_common::{
    avail_ring_slot, expected_used_idx, poll_used, PollStep, VirtqDesc, VIRTQ_DESC_F_NEXT, VIRTQ_DESC_F_WRITE,
};
use aios_kernel::drivers::virtio_gpu::{command_chain, command_chain_with_extra};
use aios_kernel::drivers::virtio_input::{
    abs_info_from_config, config_select_word, config_size, get_abs_info, get_abs_max_x, get_abs_max_y,
    name_from_config, EventQueue, InputAbsInfo, InputDeviceInfo, CFG_ABS_INFO,
};
use aios_kernel::drivers::virtio_input::{event_queue_size, reports_abs_axes, status_queue_size, InputError};
use aios_kernel::drivers::virtio_common::{used_offset, virtqueue_size};

fn desc(addr: u64, len: u32, flags: u16, next: u16) -> VirtqDesc {
    VirtqDesc { addr, len, flags, next }
}

#[test]
fn gpu_command_chains() {
    let c = command_chain(0x4000_0000, 24, 408);
    assert_eq!(c[0], desc(0x4000_0000, 24, VIRTQ_DESC_F_NEXT, 1));
    assert_eq!(c[1], desc(0x4000_0800, 408, VIRTQ_DESC_F_WRITE, 0));
    let c = command_chain_with_extra(0x4000_0000, 48, 16, 24);
    assert_eq!(c[0], desc(0x4000_0000, 48, VIRTQ_DESC_F_NEXT, 1));
    assert_eq!(c[1], desc(0x4000_0030, 16, VIRTQ_DESC_F_NEXT, 2));
    assert_eq!(c[2], desc(0x4000_0800, 24, VIRTQ_DESC_F_WRITE, 0));
}

#[test]
fn block_request_chain_and_status() {
    let r = request_chain(VIRTIO_BLK_T_IN, 0x5000_0000);
    assert_eq!(r[0], desc(0x5000_0000, 16, VIRTQ_DESC_F_NEXT, 1));
    assert_eq!(r[1], desc(0x5000_0010, 512, VIRTQ_DESC_F_NEXT | VIRTQ_DESC_F_WRITE, 2));
    assert_eq!(r[2], desc(0x5000_0210, 1, VIRTQ_DESC_F_WRITE, 0));
    let w = request_chain(VIRTIO_BLK_T_OUT, 0x5000_0000);
    assert_eq!(w[1].flags, VIRTQ_DESC_F_NEXT);
    assert_eq!(status_result(0), Ok(()));
    assert_eq!(status_result(1), Err(StorageError::IoError));
    assert_eq!(status_result(2), Err(StorageError::IoError));
}

#[test]
fn used_ring_polling() {
    assert_eq!(expected_used_idx(7), 8);
    assert_eq!(expected_used_idx(u16::MAX), 0);
    assert_eq!(avail_ring_slot(130, 128), 8);
    let mut budget = 2u32;
    assert_eq!(poll_used(3, 4, &mut budget), PollStep::Pending);
    assert_eq!(budget, 1);
    assert_eq!(poll_used(4, 4, &mut budget), PollStep::Complete);
    assert_eq!(budget, 1);
    assert_eq!(poll_used(3, 4, &mut budget), PollStep::TimedOut);
    assert_eq!(budget, 0);
}

#[test]
fn input_event_queue_walks_used_ring() {
    let mut q = EventQueue { last_used_idx: 65535, queue_size: 64 };
    assert_eq!(q.pending_elem_offset(65535), None);
    assert_eq!(q.pending_elem_offset(0), Some(4 + 63 * 8));
    assert_eq!(q.consume(5), Some(40));
    assert_eq!(q.last_used_idx, 0);
    // An out-of-range descriptor id is skipped.
    assert_eq!(q.consume(64), None);
    assert_eq!(q.last_used_idx, 1);
    assert_eq!(q.pending_elem_offset(3), Some(4 + 8));
}

#[test]
fn input_tablet_axis_maxima() {
    let kbd = Some(InputDeviceInfo { has_abs: false, abs_max_x: 1, abs_max_y: 1 });
    let tablet = Some(InputDeviceInfo { has_abs: true, abs_max_x: 4095, abs_max_y: 2047 });
    let other = Some(InputDeviceInfo { has_abs: true, abs_max_x: 9, abs_max_y: 9 });
    let devices = [kbd, None, tablet, other];
    assert_eq!(get_abs_info(&devices, 0), None);
    assert_eq!(get_abs_info(&devices, 1), None);
    assert_eq!(get_abs_info(&devices, 2), Some((4095, 2047)));
    assert_eq!(get_abs_max_x(&devices), 4095);
    assert_eq!(get_abs_max_y(&devices), 2047);
    let none = [kbd, None, None, None];
    assert_eq!(get_abs_max_x(&none), 32767);
    assert_eq!(get_abs_max_y(&none), 32767);
}

#[test]
fn input_config_space_decoding() {
    assert_eq!(config_select_word(CFG_ABS_INFO, 1), 0x0112);
    assert_eq!(config_size(0x0014_0112), 20);
    let words = [u32::from_le_bytes(*b"QEMU"), u32::from_le_bytes(*b" Vir"), u32::from_le_bytes(*b"tio\0")];
    let (name, len) = name_from_config(11, &words);
    assert_eq!(len, 11);
    assert_eq!(&name[..11], b"QEMU Virtio");
    assert!(name[11..].iter().all(|b| *b == 0));
    let (_, len) = name_from_config(200, &[0u32; 16]);
    assert_eq!(len, 64);
    let info = abs_info_from_config(20, [0, 32767, 1, 2, 3]);
    assert_eq!(info, InputAbsInfo { min: 0, max: 32767, fuzz: 1, flat: 2, res: 3 });
    let short = abs_info_from_config(19, [0, 32767, 1, 2, 3]);
    assert_eq!(short, InputAbsInfo { min: 0, max: 0, fuzz: 0, flat: 0, res: 0 });
}

#[test]
fn input_queue_sizes_follow_the_device_maximum() {
    assert_eq!(event_queue_size(0), Err(InputError::QueueError));
    assert_eq!(event_queue_size(64), Ok(64));
    assert_eq!(event_queue_size(128), Ok(128));
    assert_eq!(event_queue_size(1024), Ok(128));
    assert_eq!(status_queue_size(0), None);
    assert_eq!(status_queue_size(7), Some(7));
    assert_eq!(status_queue_size(u32::MAX), Some(128));
    assert!(reports_abs_axes(3));
    assert!(!reports_abs_axes(0));
}

#[test]
fn queue_layout_for_large_queues() {
    assert_eq!(used_offset(128), 4096);
    assert_eq!(virtqueue_size(128), 8192);
    // Above the old 1 MiB-entries bound the layout still follows the formula.
    let q: usize = 0x20_0000;
    assert_eq!(used_offset(q), (18 * q + 6 + 4095) / 4096 * 4096);
    assert_eq!(virtqueue_size(q), (used_offset(q) + 8 * q + 6 + 4095) / 4096 * 4096);
}
