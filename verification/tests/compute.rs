use maios_kernel::mhc;
use maios_kernel::mhc::command::{pipeline_stage, CommandBuffer, CommandBufferState, GpuCommand, PipelineStage};
use maios_kernel::mhc::device::{
    DeviceRegistry, GpuDevice, GpuError, GpuVendor, QueueHandle, QueueKind,
};
use maios_kernel::mhc::drivers::software;
use maios_kernel::mhc::drivers::software::SoftwareGpuDevice;
use maios_kernel::mhc::drivers::virtio_gpu::VirtioGpuDevice;
use maios_kernel::mhc::fence::{max_spins, FenceId, FencePool, TimelineSemaphore};
use maios_kernel::mhc::memory::{gpu_mem_flags, GpuAddress, GpuMemFlags, SoftwareMemoryPool};
use maios_kernel::mhc::plugin::{register_gpu_dependency, remove_task_deps, GpuDependencyTracker};
use maios_kernel::mhc::queue::{GpuPriority, QueueManager, SoftwareQueue};
use maios_kernel::mhc::scheduler::{priority_to_weight, GpuEevdfQueue, PerGpuRunQueue};
use maios_kernel::mhc::shader::{load_spirv, HandleSource, ShaderCache, ShaderHandle, ShaderModule};
use maios_kernel::mhc::task::{alloc_task_id, GpuTask, GpuTaskIds, GpuTaskState};
use std::sync::Arc;

fn spirv() -> Vec<u8> {
    let mut code = vec![0u8; 20];
    code[0] = 0x03;
    code[1] = 0x02;
    code[2] = 0x23;
    code[3] = 0x07;
    code[6] = 1;
    code
}

fn shader() -> Arc<ShaderModule> {
    let mut handles = HandleSource::new();
    Arc::new(ShaderModule::from_spirv(&mut handles, "kernel", spirv(), "main", [8, 4, 2], vec![]))
}

fn gpu_task(id: u64, priority: GpuPriority) -> GpuTask {
    GpuTask::new(id, shader(), [10, 2, 1], vec![], priority, 0)
}

fn flags() -> GpuMemFlags {
    GpuMemFlags { bits: gpu_mem_flags::HOST_VISIBLE | gpu_mem_flags::DEVICE_LOCAL }
}

#[test]
fn allocate_fill_submit_wait_free() {
    let mut m = mhc::init(None, SoftwareGpuDevice::new()).ok().unwrap();
    assert_eq!(m.gpu_count(), 1);
    assert!(m.primary().vendor() == GpuVendor::Software);
    let a = m.allocate(64, flags(), Some(0x1000)).ok().unwrap();
    let mut cmds = CommandBuffer::new();
    cmds.fill(a.gpu_addr, 64, 0xdead_beef);
    cmds.finish();
    let fence = m.submit(&cmds, GpuPriority::Normal).ok().unwrap();
    assert!(m.wait(fence).is_ok());
    assert!(m.wait_timeout(fence, 1000).is_ok());
    assert!(m.poll(fence));
    assert!(m.free(a).is_ok());
    assert!(m.gpu(7).is_none());
    let slot = Some(m);
    assert!(mhc::is_initialized(&slot));
    assert!(!mhc::has_display(&slot));
    assert_eq!(mhc::setup_display(&slot, false), Err("MHC: VirtIO-GPU device not found"));
    assert_eq!(mhc::setup_display(&slot, true), Ok(()));
    assert_eq!(mhc::setup_display(&None, true), Err("MHC not initialized"));
}

#[test]
fn software_device_fills_and_copies() {
    let mut d = SoftwareGpuDevice::new();
    let a = d.allocate(8, flags(), Some(0x1000)).ok().unwrap();
    let b = d.allocate(8, flags(), Some(0x2000)).ok().unwrap();
    assert_eq!(d.read_host(a.gpu_addr, 8), Some(vec![0; 8]));
    let q = d.create_queue(QueueKind::Compute).ok().unwrap();
    let mut cmds = CommandBuffer::new();
    cmds.fill(a.gpu_addr, 8, 0x0403_0201);
    cmds.copy(a.gpu_addr, b.gpu_addr.offset(4), 4);
    cmds.push(GpuCommand::UploadBuffer { data: vec![9, 9], dst: b.gpu_addr });
    cmds.finish();
    let fence = d.submit(q, &cmds).ok().unwrap();
    assert!(d.poll_fence(fence));
    assert_eq!(d.read_host(a.gpu_addr, 8), Some(vec![1, 2, 3, 4, 1, 2, 3, 4]));
    assert_eq!(d.read_host(b.gpu_addr, 8), Some(vec![9, 9, 0, 0, 1, 2, 3, 4]));
    assert!(d.write_host(b.gpu_addr, &[7]));
    assert_eq!(d.read_host(b.gpu_addr, 1), Some(vec![7]));
    assert_eq!(d.read_host(a.gpu_addr, 9), None);
    assert!(!d.write_host(GpuAddress(5), &[7]));
}

#[test]
fn clear_fills_every_pixel() {
    let mut d = SoftwareGpuDevice::new();
    let a = d.allocate(16, flags(), Some(0x1000)).ok().unwrap();
    let mut cmds = CommandBuffer::new();
    cmds.push(GpuCommand::Clear { target: a.gpu_addr, color: [1, 2, 3, 255], width: 2, height: 1 });
    cmds.finish();
    assert!(d.submit(QueueHandle(0), &cmds).is_ok());
    assert_eq!(d.read_host(a.gpu_addr, 12), Some(vec![1, 2, 3, 255, 1, 2, 3, 255, 0, 0, 0, 0]));
}

#[test]
fn blit_copies_images_of_one_size() {
    let mut d = SoftwareGpuDevice::new();
    let a = d.allocate(16, flags(), Some(0x1000)).ok().unwrap();
    let b = d.allocate(16, flags(), Some(0x2000)).ok().unwrap();
    let blit = |dst_width: u32| GpuCommand::Blit {
        src: a.gpu_addr,
        dst: b.gpu_addr,
        src_width: 2,
        src_height: 1,
        dst_width,
        dst_height: 1,
    };
    assert!(d.write_host(a.gpu_addr, &[1, 2, 3, 4, 5, 6, 7, 8, 9]));
    let mut cmds = CommandBuffer::new();
    cmds.push(blit(3));
    cmds.finish();
    assert!(d.submit(QueueHandle(0), &cmds).is_ok());
    assert_eq!(d.read_host(b.gpu_addr, 9), Some(vec![0; 9]));
    let mut cmds = CommandBuffer::new();
    cmds.push(blit(2));
    cmds.finish();
    assert!(d.submit(QueueHandle(0), &cmds).is_ok());
    assert_eq!(d.read_host(b.gpu_addr, 9), Some(vec![1, 2, 3, 4, 5, 6, 7, 8, 0]));
}

#[test]
fn wait_holds_later_commands_up() {
    let mut d = SoftwareGpuDevice::new();
    let a = d.allocate(16, flags(), Some(0x1000)).ok().unwrap();
    assert!(d.dispatch_compute(QueueHandle(0), &shader(), [0, 1, 1], &vec![]).is_err());
    let open = FenceId::new(0, 1);
    assert!(!d.poll_fence(open));
    let with_wait = |signal_first: bool| {
        let mut cmds = CommandBuffer::new();
        cmds.fill(a.gpu_addr, 4, 0x0101_0101);
        if signal_first {
            cmds.push(GpuCommand::SignalFence(open));
        }
        cmds.push(GpuCommand::WaitFence(open));
        cmds.fill(a.gpu_addr.offset(4), 4, 0x0202_0202);
        cmds.finish();
        cmds
    };
    let held_up = d.submit(QueueHandle(0), &with_wait(false)).ok().unwrap();
    assert!(!d.poll_fence(held_up));
    assert_eq!(d.read_host(a.gpu_addr, 8), Some(vec![1, 1, 1, 1, 0, 0, 0, 0]));
    let through = d.submit(QueueHandle(0), &with_wait(true)).ok().unwrap();
    assert!(d.poll_fence(through));
    assert_eq!(d.read_host(a.gpu_addr, 8), Some(vec![1, 1, 1, 1, 2, 2, 2, 2]));
}

#[test]
fn identifiers_are_not_given_twice() {
    let mut p = SoftwareMemoryPool::new();
    let a = p.allocate(16, flags(), Some(0x100)).ok().unwrap();
    assert!(p.free(a.alloc_id).is_ok());
    let b = p.allocate(16, flags(), Some(0x100)).ok().unwrap();
    assert!(a.alloc_id != b.alloc_id);
    let mut handles = HandleSource::new();
    assert_eq!(handles.next_handle(), ShaderHandle(1));
    assert_eq!(handles.next_handle(), ShaderHandle(2));
}

#[test]
fn removed_task_is_not_woken() {
    let mut d = SoftwareGpuDevice::new();
    let mut cmds = CommandBuffer::new();
    cmds.finish();
    let done = d.submit(QueueHandle(0), &cmds).ok().unwrap();
    let mut tracker = GpuDependencyTracker::new();
    tracker.register_dependency(1, done);
    tracker.register_dependency(2, done);
    tracker.remove_task(1);
    tracker.remove_task(1);
    assert!(!tracker.has_pending_deps(1));
    assert!(tracker.has_pending_deps(2));
    assert_eq!(tracker.drain_completed(&d), vec![2]);
}

#[test]
fn software_device_refuses() {
    let mut d = SoftwareGpuDevice::default();
    assert!(matches!(d.allocate(0, flags(), Some(0x1000)), Err(GpuError::OutOfMemory)));
    assert!(matches!(d.allocate(16, flags(), None), Err(GpuError::OutOfMemory)));
    for n in 0..software::MAX_QUEUES {
        assert!(matches!(d.create_queue(QueueKind::Universal), Ok(QueueHandle(k)) if k == n));
    }
    assert!(matches!(d.create_queue(QueueKind::Universal), Err(GpuError::Unsupported("max queues reached"))));
    let s = shader();
    let zero = d.dispatch_compute(QueueHandle(0), &s, [1, 0, 1], &vec![]);
    assert!(matches!(zero, Err(GpuError::InvalidParameter("workgroup dimensions must be > 0"))));
    let ok = d.dispatch_compute(QueueHandle(0), &s, [1, 1, 1], &vec![]).ok().unwrap();
    assert!(d.wait_fence(ok, 0).is_ok());
    let a = d.allocate(16, flags(), Some(0x1000)).ok().unwrap();
    assert!(d.free(a).is_ok());
    assert!(matches!(d.free(a), Err(GpuError::InvalidParameter("unknown allocation"))));
    assert!(d.map_host_memory(0x1000, 16, flags()).is_err());
    assert!(d.dispatch_compute(QueueHandle(0), &s, [0, 1, 1], &vec![]).is_err());
    let open = FenceId::new(0, ok.local_id() + 1);
    assert!(matches!(d.wait_fence(open, 100), Err(GpuError::Timeout)));
    assert!(d.wait_fence(FenceId::new(0, 999), 100).is_ok());
}

#[test]
fn registry_numbers_devices() {
    let mut r = DeviceRegistry::new();
    assert!(r.primary_device().is_none());
    assert_eq!(software::init(&mut r), 0);
    assert_eq!(software::init(&mut r), 1);
    assert_eq!(r.device_count(), 2);
    assert!(r.get_device(1).is_some());
    assert!(r.get_device(2).is_none());
    assert_eq!(r.list_devices()[1], (1, String::from("MHC Software GPU")));
}

#[test]
fn unprobed_virtio_device_refuses() {
    let mut d = VirtioGpuDevice::new();
    assert!(d.vendor() == GpuVendor::VirtIO);
    assert!(d.create_queue(QueueKind::Graphics).is_err());
    assert!(d.submit(QueueHandle(0), &CommandBuffer::new()).is_err());
    assert!(d.begin_display(8, 8).is_err());
}

#[test]
fn fence_packs_device_and_number() {
    let f = FenceId::new(3, 77);
    assert_eq!(f.device_id(), 3);
    assert_eq!(f.local_id(), 77);
    assert!(!f.is_none());
    assert!(FenceId::none().is_none());
    assert_eq!(f.0, (3u64 << 48) | 77);
}

#[test]
fn fence_pool_signals_fences() {
    let mut p = FencePool::new(1);
    let a = p.alloc_fence();
    let b = p.alloc_fence();
    assert!(a != b);
    assert!(!p.poll(a));
    p.signal(a);
    assert!(p.poll(a) && !p.poll(b));
    assert!(p.wait(a, 0).is_ok());
    assert!(p.wait(b, 10).is_err());
    p.reclaim(a);
    assert!(max_spins(0) <= max_spins(u64::MAX));
}

#[test]
fn semaphore_wakes_in_threshold_order() {
    let mut s = TimelineSemaphore::with_value(1);
    assert_eq!(s.wait_async(1, 'x'), Some('x'));
    assert_eq!(s.wait_async(5, 'a'), None);
    assert_eq!(s.wait_async(3, 'b'), None);
    assert_eq!(s.wait_async(9, 'c'), None);
    let woken = s.signal(5);
    assert_eq!(woken.len(), 2);
    assert_eq!(woken[0].waker, 'b');
    assert_eq!(woken[1].waker, 'a');
    assert_eq!(s.value(), 5);
    assert!(s.signal(4).is_empty());
    assert_eq!(s.value(), 5);
    assert!(s.poll(5) && !s.poll(6));
    assert!(s.wait_blocking(9, 1).is_err());
    assert!(s.wait_blocking(2, 1).is_ok());
}

#[test]
fn memory_pool_keeps_allocations_apart() {
    let mut p = SoftwareMemoryPool::new();
    let a = p.allocate(16, flags(), Some(0x100)).ok().unwrap();
    let b = p.allocate(16, flags(), Some(0x110)).ok().unwrap();
    assert!(p.write_slice(a.gpu_addr, &[1, 2, 3, 4]));
    assert_eq!(p.get_slice(b.gpu_addr, 4), Some(vec![0; 4]));
    assert_eq!(p.get_slice(a.gpu_addr.offset(1), 2), Some(vec![2, 3]));
    assert!(!p.covers(a.gpu_addr, 17));
    assert!(p.free(a.alloc_id).is_ok());
    assert!(p.free(a.alloc_id).is_err());
    assert_eq!(p.get_slice(a.gpu_addr, 1), None);
    assert!(GpuAddress::null().is_null());
    assert!(flags().contains(GpuMemFlags { bits: gpu_mem_flags::HOST_VISIBLE }));
}

#[test]
fn command_buffer_goes_through_its_states() {
    let mut c = CommandBuffer::with_capacity(4);
    assert!(c.is_empty());
    c.barrier(PipelineStage { bits: pipeline_stage::TRANSFER }, PipelineStage { bits: pipeline_stage::COMPUTE });
    c.dispatch(ShaderHandle(3), [1, 1, 1], vec![]);
    assert_eq!(c.len(), 2);
    assert!(c.state() == CommandBufferState::Recording);
    c.finish();
    assert!(c.state() == CommandBufferState::Executable);
    c.mark_pending();
    assert!(c.state() == CommandBufferState::Pending);
    c.mark_completed();
    assert!(c.state() == CommandBufferState::Completed);
    assert!(matches!(&c.commands()[1], GpuCommand::DispatchCompute { shader: ShaderHandle(3), .. }));
}

#[test]
fn shaders_are_validated_and_cached() {
    assert_eq!(ShaderModule::validate_spirv(&[3, 2]), Err("SPIR-V too short: need at least 20 bytes"));
    assert_eq!(ShaderModule::validate_spirv(&[0; 20]), Err("invalid SPIR-V magic number"));
    assert_eq!(ShaderModule::validate_spirv(&spirv()), Ok(()));
    let mut cache = ShaderCache::new();
    let mut handles = HandleSource::new();
    assert!(load_spirv(&mut cache, &mut handles, "bad", vec![], "main", [1, 1, 1], vec![]).is_err());
    assert!(cache.is_empty());
    let s = load_spirv(&mut cache, &mut handles, "add", spirv(), "main", [8, 8, 1], vec![]).ok().unwrap();
    assert_eq!(s.workgroup_invocations(), 64);
    assert_eq!(cache.len(), 1);
    assert_eq!(cache.get(s.handle).unwrap().name, "add");
    assert_eq!(cache.get_by_name("add").unwrap().handle, s.handle);
    assert!(cache.get_by_name("sub").is_none());
    cache.remove(s.handle);
    assert!(cache.get(s.handle).is_none());
    assert!(cache.get_by_name("add").is_none());
    assert!(cache.get(ShaderHandle::invalid()).is_none());
}

#[test]
fn shader_version_is_checked() {
    let with = |version: [u8; 4]| {
        let mut code = spirv();
        code[4..8].copy_from_slice(&version);
        code
    };
    let unsupported = Err("unsupported SPIR-V version");
    assert_eq!(ShaderModule::validate_spirv(&with([0, 0, 1, 0])), Ok(()));
    assert_eq!(ShaderModule::validate_spirv(&with([0, 6, 1, 0])), Ok(()));
    assert_eq!(ShaderModule::validate_spirv(&with([0, 7, 1, 0])), unsupported);
    assert_eq!(ShaderModule::validate_spirv(&with([0, 0, 0, 0])), unsupported);
    assert_eq!(ShaderModule::validate_spirv(&with([0, 0, 2, 0])), unsupported);
    assert_eq!(ShaderModule::validate_spirv(&with([255, 255, 255, 255])), unsupported);
    let mut cache = ShaderCache::new();
    let mut handles = HandleSource::new();
    let code = with([255, 255, 255, 255]);
    assert!(load_spirv(&mut cache, &mut handles, "new", code, "main", [1, 1, 1], vec![]).is_err());
    assert!(cache.is_empty());
}

#[test]
fn removing_a_shader_leaves_its_namesake() {
    let mut cache = ShaderCache::new();
    let mut handles = HandleSource::new();
    let a = load_spirv(&mut cache, &mut handles, "add", spirv(), "main", [8, 8, 1], vec![]).ok().unwrap();
    let b = load_spirv(&mut cache, &mut handles, "add", spirv(), "main", [4, 4, 1], vec![]).ok().unwrap();
    cache.remove(a.handle);
    assert!(cache.get(a.handle).is_none());
    assert_eq!(cache.get_by_name("add").unwrap().handle, b.handle);
    cache.remove(b.handle);
    assert!(cache.get_by_name("add").is_none());
}

#[test]
fn gpu_task_cost_and_states() {
    let mut ids = GpuTaskIds::new();
    let first = alloc_task_id(&mut ids);
    assert_eq!(alloc_task_id(&mut ids), first + 1);
    let mut t = gpu_task(1, GpuPriority::Normal);
    assert_eq!(t.estimated_cost(), 20 * 64);
    assert!(t.current_state() == GpuTaskState::Pending);
    assert!(t.transition(GpuTaskState::Running) == GpuTaskState::Pending);
    assert!(!t.is_terminal());
    t.transition(GpuTaskState::Failed);
    assert!(t.is_terminal());
    t.set_deadline(500);
    assert_eq!(t.deadline_ns, Some(500));
}

#[test]
fn dependencies_wait_for_fences() {
    let mut d = SoftwareGpuDevice::new();
    let mut cmds = CommandBuffer::new();
    cmds.finish();
    let done = d.submit(QueueHandle(0), &cmds).ok().unwrap();
    assert!(d.dispatch_compute(QueueHandle(0), &shader(), [0, 1, 1], &vec![]).is_err());
    let open = FenceId::new(0, done.local_id() + 1);
    let mut t = gpu_task(1, GpuPriority::High);
    t.depends_on(done);
    assert!(t.are_dependencies_met(&d));
    t.depends_on(open);
    assert!(!t.are_dependencies_met(&d));
    let mut tracker = GpuDependencyTracker::new();
    register_gpu_dependency(&mut tracker, 8, done);
    register_gpu_dependency(&mut tracker, 9, open);
    assert_eq!(tracker.dependency_count(), 2);
    assert!(tracker.has_pending_deps(8));
    assert_eq!(tracker.drain_completed(&d), vec![8]);
    assert!(!tracker.has_pending_deps(8));
    remove_task_deps(&mut tracker, 9);
    assert_eq!(tracker.dependency_count(), 0);
    register_gpu_dependency(&mut tracker, 8, open);
    register_gpu_dependency(&mut tracker, 9, open);
    assert_eq!(tracker.dependency_count(), 2);
    remove_task_deps(&mut tracker, 8);
    assert_eq!(tracker.dependency_count(), 1);
}

#[test]
fn gpu_weights_and_deadlines() {
    assert!(priority_to_weight(GpuPriority::Background) < priority_to_weight(GpuPriority::Normal));
    assert!(priority_to_weight(GpuPriority::Realtime) < priority_to_weight(GpuPriority::Deadline));
    let mut q = GpuEevdfQueue::new();
    q.enqueue(gpu_task(1, GpuPriority::Normal));
    q.enqueue(gpu_task(2, GpuPriority::Normal));
    assert_eq!(q.nr_tasks, 2);
    let first = q.pick_next().unwrap();
    assert_eq!(first.id, 2);
    assert!(first.vdeadline < 10_000_000);
    assert_eq!(q.remove(1).unwrap().id, 1);
    assert!(q.pick_next().is_none());
    let mut late = gpu_task(5, GpuPriority::Normal);
    late.vruntime = 700;
    q.enqueue(late);
    assert_eq!(q.min_vruntime, 0);
    assert_eq!(q.pick_next().unwrap().id, 5);
    assert_eq!(q.min_vruntime, 700);
    q.enqueue(gpu_task(6, GpuPriority::Normal));
    let mut urgent = gpu_task(7, GpuPriority::Background);
    urgent.set_deadline(1);
    q.enqueue(urgent);
    let u = q.remove(7).unwrap();
    assert_eq!(u.vdeadline - u.vruntime, 10_000_000 * 65536 / (1024 + 65536));
    let mut rq = PerGpuRunQueue::new(0);
    rq.enqueue(gpu_task(3, GpuPriority::Normal));
    assert_eq!(rq.load(), 1);
    assert_eq!(rq.pick_next().unwrap().id, 3);
    assert_eq!(rq.load(), 0);
    assert_eq!(rq.stats.dispatches, 1);
}

#[test]
fn software_queue_drains_by_priority() {
    let mut d = SoftwareGpuDevice::new();
    let mut q = SoftwareQueue::new(1);
    let mut low = CommandBuffer::new();
    low.finish();
    let mut high = CommandBuffer::new();
    high.finish();
    q.enqueue(low, GpuPriority::Background, FenceId::none(), QueueHandle(0));
    q.enqueue(high, GpuPriority::Deadline, FenceId::none(), QueueHandle(1));
    assert_eq!(q.pending_count(), 2);
    assert!(q.is_busy());
    let results = q.drain_to_hardware(&mut d);
    assert_eq!(results.len(), 1);
    assert!(results[0].is_ok());
    assert_eq!(q.in_flight_count(), 1);
    assert_eq!(q.pending_count(), 1);
    let results = q.drain_to_hardware(&mut d);
    assert_eq!(results.len(), 1);
    assert_eq!(q.pending_count(), 0);
}

#[test]
fn contexts_have_their_queues() {
    let mut d = SoftwareGpuDevice::new();
    let mut m = QueueManager::new(4);
    let ctx = m.create_context();
    let mut cmds = CommandBuffer::new();
    cmds.finish();
    assert!(m.enqueue(ctx, cmds, GpuPriority::Normal, FenceId::none(), QueueHandle(0)).is_ok());
    assert_eq!(m.stats(ctx).unwrap().pending, 1);
    assert_eq!(m.drain_order(), vec![ctx]);
    m.drain_all(&mut d);
    assert_eq!(m.stats(ctx).unwrap().pending, 0);
    assert_eq!(m.stats(ctx).unwrap().in_flight, 1);
    assert_eq!(m.stats(ctx).unwrap().completed, 0);
    m.drain_all(&mut d);
    assert_eq!(m.stats(ctx).unwrap().in_flight, 0);
    assert_eq!(m.stats(ctx).unwrap().completed, 1);
    m.destroy_context(ctx);
    assert!(m.stats(ctx).is_none());
    assert!(m.enqueue(ctx, CommandBuffer::new(), GpuPriority::Normal, FenceId::none(), QueueHandle(0)).is_err());
}
