use sourcerenderer::buffer::{
    buffer_sharing, buffer_usage_to_vk, is_mapped, needs_cache_maintenance, VkBuffer, BufferAllocator,
    BufferUsage, MemoryUsage, ReleaseOutcome, BUFFER_USAGE_CONSTANT, BUFFER_USAGE_COPY_DST,
    BUFFER_USAGE_COPY_SRC, BUFFER_USAGE_INDEX, BUFFER_USAGE_INDIRECT, BUFFER_USAGE_STORAGE, BUFFER_USAGE_STORAGE_TEXEL,
    BUFFER_USAGE_UNIFORM_TEXEL, BUFFER_USAGE_VERTEX,
};

fn vertex() -> BufferUsage {
    BufferUsage::from_bits(BUFFER_USAGE_VERTEX)
}

#[test]
fn first_request_makes_a_slab_of_the_smallest_tier() {
    let mut allocator = BufferAllocator::new(64, 16);
    let grant = allocator.get_slice(MemoryUsage::CpuToGpu, vertex(), 100);
    assert!(grant.new_buffer);
    assert_eq!(grant.slice.get_buffer(), 0);
    assert_eq!(grant.slice.get_offset(), 0);
    assert_eq!(grant.slice.get_length(), 256);
    assert_eq!(grant.slice.get_offset_and_length(), (0, 256));
    assert_eq!(allocator.buffer_count(), 1);
    let slab = allocator.buffer(0);
    assert_eq!(slab.slice_size(), 256);
    assert_eq!(slab.slice_count(), 64);
    assert_eq!(slab.size(), 16384);
    assert_eq!(slab.free_slices(), 63);
    assert!(slab.is_pooled());
    assert!(slab.is_leased(0));
    assert!(!slab.is_leased(1));
    assert_eq!(slab.memory_usage(), MemoryUsage::CpuToGpu);
    assert_eq!(slab.buffer_usage(), vertex());
}

#[test]
fn slices_of_one_slab_follow_one_another() {
    let mut allocator = BufferAllocator::new(64, 16);
    let a = allocator.get_slice(MemoryUsage::CpuToGpu, vertex(), 10);
    let b = allocator.get_slice(MemoryUsage::CpuToGpu, vertex(), 200);
    let c = allocator.get_slice(MemoryUsage::CpuToGpu, vertex(), 255);
    assert!(a.new_buffer && !b.new_buffer && !c.new_buffer);
    assert_eq!(a.slice.get_offset(), 0);
    assert_eq!(b.slice.get_offset(), 256);
    assert_eq!(c.slice.get_offset(), 512);
    assert_eq!(allocator.buffer_count(), 1);
}

#[test]
fn tiers_follow_the_length() {
    let mut allocator = BufferAllocator::new(64, 16);
    assert_eq!(allocator.get_slice(MemoryUsage::GpuOnly, vertex(), 256).slice.get_length(), 256);
    assert_eq!(allocator.get_slice(MemoryUsage::GpuOnly, vertex(), 257).slice.get_length(), 512);
    assert_eq!(allocator.get_slice(MemoryUsage::GpuOnly, vertex(), 512).slice.get_length(), 512);
    assert_eq!(allocator.get_slice(MemoryUsage::GpuOnly, vertex(), 513).slice.get_length(), 1024);
    assert_eq!(allocator.get_slice(MemoryUsage::GpuOnly, vertex(), 1024).slice.get_length(), 1024);
    assert_eq!(allocator.get_slice(MemoryUsage::GpuOnly, vertex(), 1025).slice.get_length(), 4096);
    assert_eq!(allocator.get_slice(MemoryUsage::GpuOnly, vertex(), 4096).slice.get_length(), 4096);
    assert_eq!(allocator.buffer(allocator.buffer_count() - 1).slice_count(), 4);
}

#[test]
fn a_request_as_long_as_a_slice_fits_it() {
    let mut allocator = BufferAllocator::new(64, 16);
    let a = allocator.get_slice(MemoryUsage::GpuOnly, vertex(), 256);
    let b = allocator.get_slice(MemoryUsage::GpuOnly, vertex(), 256);
    assert!(a.new_buffer && !b.new_buffer);
    assert_eq!(b.slice.get_offset_and_length(), (256, 256));
    assert_eq!(allocator.buffer_count(), 1);
}

#[test]
fn a_released_slice_serves_a_request_of_its_own_length() {
    let mut allocator = BufferAllocator::new(64, 16);
    for length in [256usize, 512, 1024, 4096] {
        let first = allocator.get_slice(MemoryUsage::GpuOnly, vertex(), length);
        let buffers = allocator.buffer_count();
        let place = (first.slice.get_buffer(), first.slice.get_offset(), first.slice.get_length());
        assert_eq!(place.2, length);
        assert_eq!(allocator.release(first.slice), ReleaseOutcome::Returned);
        let again = allocator.get_slice(MemoryUsage::GpuOnly, vertex(), length);
        assert!(!again.new_buffer);
        assert_eq!(
            (again.slice.get_buffer(), again.slice.get_offset(), again.slice.get_length()),
            place
        );
        assert_eq!(allocator.buffer_count(), buffers);
    }
}

#[test]
fn large_requests_get_a_buffer_of_their_own() {
    let mut allocator = BufferAllocator::new(64, 16);
    let grant = allocator.get_slice(MemoryUsage::GpuOnly, vertex(), 4097);
    assert!(grant.new_buffer);
    assert_eq!(grant.slice.get_length(), 4097);
    assert_eq!(grant.slice.get_offset(), 0);
    let buffer = allocator.buffer(0);
    assert!(!buffer.is_pooled());
    assert_eq!(buffer.slice_count(), 1);
    assert_eq!(buffer.free_slices(), 0);
    let next = allocator.get_slice(MemoryUsage::GpuOnly, vertex(), 100);
    assert!(next.new_buffer);
    assert_eq!(next.slice.get_buffer(), 1);
}

#[test]
fn keys_keep_their_slabs_apart() {
    let mut allocator = BufferAllocator::new(64, 16);
    let a = allocator.get_slice(MemoryUsage::GpuOnly, vertex(), 10);
    let b = allocator.get_slice(MemoryUsage::CpuOnly, vertex(), 10);
    let c = allocator.get_slice(MemoryUsage::GpuOnly, BufferUsage::from_bits(BUFFER_USAGE_INDEX), 10);
    assert_eq!(a.slice.get_buffer(), 0);
    assert_eq!(b.slice.get_buffer(), 1);
    assert_eq!(c.slice.get_buffer(), 2);
    let d = allocator.get_slice(MemoryUsage::CpuOnly, vertex(), 10);
    assert_eq!(d.slice.get_buffer(), 1);
    assert_eq!(d.slice.get_offset(), 256);
}

#[test]
fn alignment_is_the_largest_that_the_usage_brings_in() {
    let allocator = BufferAllocator::new(64, 128);
    assert_eq!(allocator.alignment(vertex()), 4);
    assert_eq!(allocator.alignment(BufferUsage::from_bits(BUFFER_USAGE_CONSTANT)), 64);
    assert_eq!(allocator.alignment(BufferUsage::from_bits(BUFFER_USAGE_STORAGE)), 128);
    assert_eq!(
        allocator.alignment(BufferUsage::from_bits(BUFFER_USAGE_STORAGE | BUFFER_USAGE_CONSTANT)),
        128
    );
    let small = BufferAllocator::new(1, 2);
    assert_eq!(small.alignment(BufferUsage::from_bits(BUFFER_USAGE_STORAGE | BUFFER_USAGE_CONSTANT)), 4);
}

#[test]
fn slices_are_a_multiple_of_the_alignment_long() {
    for (alignment, length, expected) in [
        (4usize, 10usize, 256usize),
        (256, 10, 256),
        (512, 10, 512),
        (512, 600, 1024),
        (1024, 10, 1024),
        (1024, 1025, 4096),
        (2048, 10, 4096),
        (4096, 10, 4096),
        (8192, 10, 8192),
        (768, 10, 4608),
        (96, 300, 4128),
    ] {
        let mut allocator = BufferAllocator::new(alignment, 16);
        let constant = BufferUsage::from_bits(BUFFER_USAGE_CONSTANT);
        let grant = allocator.get_slice(MemoryUsage::GpuOnly, constant, length);
        assert!(grant.new_buffer);
        assert_eq!(grant.slice.get_offset_and_length(), (0, expected));
        assert_eq!(expected % alignment, 0);
    }
}

#[test]
fn slices_of_an_aligned_slab_follow_one_another() {
    let mut allocator = BufferAllocator::new(768, 16);
    let constant = BufferUsage::from_bits(BUFFER_USAGE_CONSTANT);
    let a = allocator.get_slice(MemoryUsage::GpuOnly, constant, 10);
    assert!(a.new_buffer);
    assert_eq!(a.slice.get_offset_and_length(), (0, 4608));
    assert_eq!(allocator.buffer(0).slice_count(), 3);
    let b = allocator.get_slice(MemoryUsage::GpuOnly, constant, 10);
    assert!(!b.new_buffer);
    assert_eq!(b.slice.get_offset_and_length(), (4608, 4608));
    let c = allocator.get_slice(MemoryUsage::GpuOnly, constant, 4000);
    assert!(!c.new_buffer);
    assert_eq!(c.slice.get_offset_and_length(), (9216, 4608));
    assert_eq!(allocator.buffer_count(), 1);
    let d = allocator.get_slice(MemoryUsage::GpuOnly, constant, 1);
    assert!(d.new_buffer);
    assert_eq!(d.slice.get_buffer(), 1);
}

#[test]
fn a_slice_that_comes_back_serves_its_whole_tier() {
    for alignment in [4usize, 64, 256, 512, 768, 1024, 2048, 3000, 4096, 10000] {
        for (first, second) in [(1usize, 256usize), (257, 512), (513, 1024), (1500, 3000), (1025, 4096)] {
            let mut allocator = BufferAllocator::new(16, alignment);
            let storage = BufferUsage::from_bits(BUFFER_USAGE_STORAGE);
            let _small = allocator.get_slice(MemoryUsage::CpuToGpu, storage, 1);
            let grant = allocator.get_slice(MemoryUsage::CpuToGpu, storage, first);
            let buffers = allocator.buffer_count();
            assert_eq!(allocator.release(grant.slice), ReleaseOutcome::Returned);
            let again = allocator.get_slice(MemoryUsage::CpuToGpu, storage, second);
            assert!(!again.new_buffer);
            assert!(again.slice.get_length() >= second);
            assert_eq!(again.slice.get_length() % allocator.alignment(storage), 0);
            assert_eq!(allocator.buffer_count(), buffers);
        }
    }
}

#[test]
fn an_alignment_above_the_pooled_size_gives_a_slab_of_one_slice() {
    let mut allocator = BufferAllocator::new(16, 20000);
    let storage = BufferUsage::from_bits(BUFFER_USAGE_STORAGE);
    let a = allocator.get_slice(MemoryUsage::GpuOnly, storage, 300);
    assert_eq!(a.slice.get_offset_and_length(), (0, 20000));
    assert!(allocator.buffer(0).is_pooled());
    assert_eq!(allocator.buffer(0).slice_count(), 1);
    assert_eq!(allocator.release(a.slice), ReleaseOutcome::Returned);
    let b = allocator.get_slice(MemoryUsage::GpuOnly, storage, 4096);
    assert!(!b.new_buffer);
    assert_eq!(b.slice.get_buffer(), 0);
    assert_eq!(b.slice.get_offset_and_length(), (0, 20000));
}

#[test]
fn a_buffer_made_for_one_request_is_retired_when_its_slice_comes_back() {
    let mut allocator = BufferAllocator::new(64, 16);
    let big = allocator.get_slice(MemoryUsage::GpuOnly, vertex(), 5000);
    assert!(!allocator.buffer(0).is_retired());
    assert_eq!(allocator.release(big.slice), ReleaseOutcome::Retired);
    assert!(allocator.buffer(0).is_retired());
    let small = allocator.get_slice(MemoryUsage::GpuOnly, vertex(), 10);
    assert!(small.new_buffer);
    assert_eq!(small.slice.get_buffer(), 0);
    assert_eq!(small.slice.get_offset_and_length(), (0, 256));
    assert!(allocator.buffer(0).is_pooled());
    assert!(!allocator.buffer(0).is_retired());
    assert_eq!(allocator.buffer_count(), 1);
    assert_eq!(allocator.release(small.slice), ReleaseOutcome::Returned);
    assert!(!allocator.buffer(0).is_retired());
    assert_eq!(allocator.buffer(0).free_slices(), 64);
}

#[test]
fn large_buffers_that_come_and_go_keep_the_list_short() {
    let mut allocator = BufferAllocator::new(64, 16);
    let kept = allocator.get_slice(MemoryUsage::GpuOnly, vertex(), 100);
    for round in 0..100usize {
        let first = allocator.get_slice(MemoryUsage::CpuToGpu, vertex(), 5000 + round);
        let second = allocator.get_slice(MemoryUsage::CpuToGpu, vertex(), 9000 + round);
        assert!(first.new_buffer && second.new_buffer);
        assert_eq!(first.slice.get_buffer(), 1);
        assert_eq!(second.slice.get_buffer(), 2);
        assert_eq!(first.slice.get_offset_and_length(), (0, 5000 + round));
        assert_eq!(allocator.buffer(2).size(), 9000 + round);
        assert_eq!(allocator.release(first.slice), ReleaseOutcome::Retired);
        assert_eq!(allocator.release(second.slice), ReleaseOutcome::Retired);
    }
    assert_eq!(allocator.buffer_count(), 3);
    assert_eq!(allocator.release(kept.slice), ReleaseOutcome::Returned);
}

#[test]
fn live_slices_do_not_overlap_and_are_aligned() {
    let mut allocator = BufferAllocator::new(256, 64);
    let usages = [
        BufferUsage::from_bits(BUFFER_USAGE_VERTEX),
        BufferUsage::from_bits(BUFFER_USAGE_CONSTANT),
        BufferUsage::from_bits(BUFFER_USAGE_STORAGE),
    ];
    let mut live: Vec<(usize, usize, usize)> = Vec::new();
    for round in 0..200usize {
        let usage = usages[round % 3];
        let length = (round * 37) % 4096 + 1;
        let grant = allocator.get_slice(MemoryUsage::CpuToGpu, usage, length);
        let (offset, len) = grant.slice.get_offset_and_length();
        assert!(len >= length);
        assert_eq!(offset % allocator.alignment(usage), 0);
        assert_eq!(len % allocator.alignment(usage), 0);
        assert!(offset + len <= allocator.buffer(grant.slice.get_buffer()).size());
        for (buffer, other_offset, other_len) in live.iter() {
            if *buffer == grant.slice.get_buffer() {
                assert!(offset + len <= *other_offset || *other_offset + *other_len <= offset);
            }
        }
        live.push((grant.slice.get_buffer(), offset, len));
    }
}

#[test]
fn a_released_slice_is_leased_again_without_a_new_buffer() {
    let mut allocator = BufferAllocator::new(64, 16);
    let a = allocator.get_slice(MemoryUsage::CpuToGpu, vertex(), 100);
    let b = allocator.get_slice(MemoryUsage::CpuToGpu, vertex(), 100);
    let _c = allocator.get_slice(MemoryUsage::CpuToGpu, vertex(), 100);
    assert_eq!(b.slice.get_offset(), 256);
    let _ = a;
    assert_eq!(allocator.release(b.slice), ReleaseOutcome::Returned);
    assert!(!allocator.buffer(0).is_leased(1));
    let again = allocator.get_slice(MemoryUsage::CpuToGpu, vertex(), 50);
    assert!(!again.new_buffer);
    assert_eq!(again.slice.get_buffer(), 0);
    assert_eq!(again.slice.get_offset(), 256);
    assert_eq!(allocator.buffer_count(), 1);
}

#[test]
fn many_rounds_of_lease_and_release_keep_one_buffer() {
    let mut allocator = BufferAllocator::new(64, 16);
    for _ in 0..1000 {
        let grant = allocator.get_slice(MemoryUsage::CpuToGpu, vertex(), 100);
        assert_eq!(allocator.release(grant.slice), ReleaseOutcome::Returned);
    }
    assert_eq!(allocator.buffer_count(), 1);
    assert_eq!(allocator.buffer(0).free_slices(), 64);
}

#[test]
fn a_slice_of_another_allocator_is_not_taken_back() {
    let mut first = BufferAllocator::new(64, 16);
    let mut second = BufferAllocator::new(64, 16);
    let grant = first.get_slice(MemoryUsage::CpuToGpu, vertex(), 100);
    assert_eq!(second.release(grant.slice), ReleaseOutcome::NotLeased);
    let a = second.get_slice(MemoryUsage::CpuToGpu, vertex(), 100);
    let b = first.get_slice(MemoryUsage::CpuToGpu, vertex(), 100);
    assert_eq!(a.slice.get_offset(), 0);
    assert_eq!(second.release(b.slice), ReleaseOutcome::NotLeased);
    assert_eq!(second.release(a.slice), ReleaseOutcome::Returned);
}

#[test]
fn a_fresh_buffer_has_all_slices_free() {
    let buffer = VkBuffer::new(512, 8, MemoryUsage::GpuToCpu, vertex());
    assert_eq!(buffer.free_slices(), 8);
    assert_eq!(buffer.size(), 4096);
    assert!(!buffer.is_leased(0));
    assert!(!buffer.is_leased(8));
}

#[test]
fn buffer_usages_map_one_to_one() {
    assert_eq!(buffer_usage_to_vk(BufferUsage::from_bits(BUFFER_USAGE_VERTEX)), 0x80);
    assert_eq!(buffer_usage_to_vk(BufferUsage::from_bits(BUFFER_USAGE_INDEX)), 0x40);
    assert_eq!(buffer_usage_to_vk(BufferUsage::from_bits(BUFFER_USAGE_CONSTANT)), 0x10);
    assert_eq!(buffer_usage_to_vk(BufferUsage::from_bits(BUFFER_USAGE_INDIRECT)), 0x100);
    assert_eq!(buffer_usage_to_vk(BufferUsage::from_bits(BUFFER_USAGE_STORAGE)), 0x20);
    assert_eq!(buffer_usage_to_vk(BufferUsage::from_bits(BUFFER_USAGE_STORAGE_TEXEL)), 0x08);
    assert_eq!(buffer_usage_to_vk(BufferUsage::from_bits(BUFFER_USAGE_UNIFORM_TEXEL)), 0x04);
    assert_eq!(buffer_usage_to_vk(BufferUsage::from_bits(BUFFER_USAGE_COPY_SRC)), 0x01);
    assert_eq!(buffer_usage_to_vk(BufferUsage::from_bits(BUFFER_USAGE_COPY_DST)), 0x02);
    assert_eq!(buffer_usage_to_vk(BufferUsage::from_bits(0)), 0);
    let both = BufferUsage::from_bits(BUFFER_USAGE_VERTEX).union(BufferUsage::from_bits(BUFFER_USAGE_COPY_DST));
    assert!(both.contains(BUFFER_USAGE_VERTEX));
    assert!(!both.contains(BUFFER_USAGE_INDEX));
    assert_eq!(both.bits(), BUFFER_USAGE_VERTEX | BUFFER_USAGE_COPY_DST);
    assert_eq!(buffer_usage_to_vk(both), 0x82);
}

#[test]
fn buffers_that_are_copied_from_are_shared_with_the_transfer_queue() {
    let copy = BufferUsage::from_bits(BUFFER_USAGE_COPY_SRC);
    let sharing = buffer_sharing(copy, 3, Some(5));
    assert!(sharing.concurrent);
    assert_eq!(sharing.queue_families, vec![3, 5]);
    let alone = buffer_sharing(copy, 3, None);
    assert!(!alone.concurrent);
    assert_eq!(alone.queue_families, vec![3]);
    let other = buffer_sharing(vertex(), 3, Some(5));
    assert!(!other.concurrent);
    assert!(other.queue_families.is_empty());
}

#[test]
fn memory_that_the_processor_reaches_is_mapped() {
    assert!(!is_mapped(MemoryUsage::GpuOnly));
    assert!(is_mapped(MemoryUsage::CpuOnly));
    assert!(is_mapped(MemoryUsage::CpuToGpu));
    assert!(is_mapped(MemoryUsage::GpuToCpu));
    assert!(needs_cache_maintenance(false, MemoryUsage::CpuToGpu));
    assert!(!needs_cache_maintenance(true, MemoryUsage::CpuToGpu));
    assert!(!needs_cache_maintenance(false, MemoryUsage::GpuOnly));
}
