use sourcerenderer::lifetime_tracker::{ResourceKind, VkLifetimeTrackers};
use sourcerenderer::transfer::{mip_extent, FlushOutcome, VkTransfer, VkTransferCommandBuffer};

#[test]
fn a_new_tracker_is_empty() {
    let trackers = VkLifetimeTrackers::new();
    assert!(trackers.is_empty());
    assert!(!trackers.is_tracked(ResourceKind::Buffer, 1));
}

#[test]
fn every_kind_is_tracked_and_reset_lets_go_of_all() {
    let mut trackers = VkLifetimeTrackers::new();
    trackers.track_semaphore(1);
    trackers.track_fence(2);
    trackers.track_buffer(3);
    trackers.track_texture(4);
    trackers.track_texture_view(5);
    trackers.track_render_pass(6);
    trackers.track_frame_buffer(7);
    trackers.track_sampler(8);
    trackers.track_pipeline(9);
    assert!(!trackers.is_empty());
    assert!(trackers.is_tracked(ResourceKind::Semaphore, 1));
    assert!(trackers.is_tracked(ResourceKind::Fence, 2));
    assert!(trackers.is_tracked(ResourceKind::Buffer, 3));
    assert!(trackers.is_tracked(ResourceKind::Texture, 4));
    assert!(trackers.is_tracked(ResourceKind::TextureView, 5));
    assert!(trackers.is_tracked(ResourceKind::RenderPass, 6));
    assert!(trackers.is_tracked(ResourceKind::FrameBuffer, 7));
    assert!(trackers.is_tracked(ResourceKind::Sampler, 8));
    assert!(trackers.is_tracked(ResourceKind::Pipeline, 9));
    assert!(!trackers.is_tracked(ResourceKind::Pipeline, 8));
    trackers.reset();
    assert!(trackers.is_empty());
    assert!(!trackers.is_tracked(ResourceKind::Buffer, 3));
}

#[test]
fn one_reference_of_any_kind_makes_a_tracker_not_empty() {
    let mut trackers = VkLifetimeTrackers::new();
    trackers.track_sampler(8);
    assert!(!trackers.is_empty());
}

#[test]
fn an_upload_holds_its_buffer_and_its_texture() {
    let mut transfer = VkTransfer::new(VkTransferCommandBuffer::new(10, 100));
    assert_eq!(transfer.current_handle(), 10);
    transfer.init_texture(7, 3);
    match transfer.flush(false, Some(VkTransferCommandBuffer::new(11, 101))) {
        FlushOutcome::Submitted { handle, fence, spare } => {
            assert_eq!(handle, 10);
            assert_eq!(fence, 100);
            assert!(spare.is_none());
        }
        FlushOutcome::NeedsBuffer => panic!("a fresh recording was offered"),
    }
    assert_eq!(transfer.current_handle(), 11);
    assert_eq!(transfer.used_len(), 1);
    assert_eq!(transfer.used_fence(0), 100);
    let retired = transfer.try_free_used_buffers(&vec![false]);
    assert!(retired.is_empty());
    assert_eq!(transfer.used_len(), 1);
    let retired = transfer.try_free_used_buffers(&vec![true]);
    assert_eq!(retired.len(), 1);
    assert_eq!(retired[0].get_handle(), 10);
    assert_eq!(retired[0].get_fence(), 100);
    assert!(retired[0].trackers().is_tracked(ResourceKind::Texture, 7));
    assert!(retired[0].trackers().is_tracked(ResourceKind::Buffer, 3));
    assert_eq!(transfer.used_len(), 0);
}

#[test]
fn only_signalled_recordings_are_retired_and_the_rest_keep_their_order() {
    let mut transfer = VkTransfer::new(VkTransferCommandBuffer::new(0, 100));
    for i in 1..5u64 {
        transfer.flush(false, Some(VkTransferCommandBuffer::new(i, 100 + i)));
    }
    assert_eq!(transfer.used_len(), 4);
    let retired = transfer.try_free_used_buffers(&vec![false, true, false, true]);
    assert_eq!(retired.iter().map(|r| r.get_handle()).collect::<Vec<u64>>(), vec![1, 3]);
    assert_eq!(transfer.used_len(), 2);
    assert_eq!(transfer.used_fence(0), 100);
    assert_eq!(transfer.used_fence(1), 102);
}

#[test]
fn a_flush_takes_the_oldest_recording_again_once_its_fence_has_signalled() {
    let mut transfer = VkTransfer::new(VkTransferCommandBuffer::new(0, 100));
    transfer.init_texture(1, 2);
    assert!(transfer.needs_fresh_buffer(true));
    assert!(matches!(transfer.flush(true, None), FlushOutcome::NeedsBuffer));
    assert_eq!(transfer.current_handle(), 0);
    transfer.flush(true, Some(VkTransferCommandBuffer::new(1, 101)));
    assert!(transfer.needs_fresh_buffer(false));
    assert!(!transfer.needs_fresh_buffer(true));
    match transfer.flush(true, Some(VkTransferCommandBuffer::new(2, 102))) {
        FlushOutcome::Submitted { handle, fence, spare } => {
            assert_eq!(handle, 1);
            assert_eq!(fence, 101);
            assert_eq!(spare.map(|s| s.get_handle()), Some(2));
        }
        FlushOutcome::NeedsBuffer => panic!("the oldest recording was free"),
    }
    assert_eq!(transfer.current_handle(), 0);
    assert_eq!(transfer.used_len(), 1);
    assert_eq!(transfer.used_fence(0), 101);
    let retired = transfer.try_free_used_buffers(&vec![true]);
    assert!(retired[0].trackers().is_empty());
    transfer.flush(false, Some(VkTransferCommandBuffer::new(3, 103)));
    let retired = transfer.try_free_used_buffers(&vec![true]);
    assert_eq!(retired[0].get_handle(), 0);
    assert!(retired[0].trackers().is_empty());
}

#[test]
fn mip_levels_halve_and_never_vanish() {
    assert_eq!(mip_extent(256, 0), 256);
    assert_eq!(mip_extent(256, 3), 32);
    assert_eq!(mip_extent(256, 8), 1);
    assert_eq!(mip_extent(256, 9), 1);
    assert_eq!(mip_extent(0, 0), 1);
    assert_eq!(mip_extent(5, 1), 2);
}
