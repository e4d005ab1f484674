use spim_dma::future_box::{
    FutureBoxExHdl, FutureBoxes, Source, COMPLETED, ERROR, INVALID, KERNEL_ACCESS,
    USERSPACE_ACCESS,
};

fn fresh(boxes: &mut FutureBoxes<u32>, v: u32, source: Source) -> FutureBoxExHdl {
    match FutureBoxExHdl::new_exclusive(boxes, v, source) {
        Ok(h) => h,
        Err(()) => panic!("no free block"),
    }
}

#[test]
fn only_one_upgrade_succeeds() {
    let mut boxes: FutureBoxes<u32> = FutureBoxes::new(2);
    let h = fresh(&mut boxes, 7, Source::Userspace);
    let a = h.kernel_waiter(&mut boxes);
    let b = h.kernel_waiter(&mut boxes);
    assert_eq!((b.fb(), b.awaiting()), (0, KERNEL_ACCESS));
    let mon = h.release_to_kernel(&mut boxes);
    assert_eq!(mon.awaiting(), INVALID);
    let got = a.try_upgrade(&mut boxes);
    assert_eq!(got.map(|o| o.map(|x| x.fb())), Ok(Some(0)));
    assert_eq!(b.try_upgrade(&mut boxes), Ok(None));
    assert_eq!(a.try_upgrade(&mut boxes), Ok(None));
}

#[test]
fn upgrade_waits_for_awaited_status() {
    let mut boxes: FutureBoxes<u32> = FutureBoxes::new(1);
    let h = fresh(&mut boxes, 7, Source::Kernel);
    let w = h.kernel_waiter(&mut boxes);
    let _mon = h.release_to_userspace(&mut boxes);
    assert_eq!(boxes.status_of(0), Some(USERSPACE_ACCESS));
    assert_eq!(w.try_upgrade(&mut boxes), Ok(None));
    assert_eq!(w.try_upgrade(&mut boxes), Ok(None));
}

#[test]
fn upgrade_reports_failure() {
    let mut boxes: FutureBoxes<u32> = FutureBoxes::new(1);
    let h = fresh(&mut boxes, 7, Source::Kernel);
    let w = h.kernel_waiter(&mut boxes);
    h.release_to_error(&mut boxes);
    assert_eq!(boxes.status_of(0), Some(ERROR));
    assert_eq!(w.try_upgrade(&mut boxes), Err(()));
    assert_eq!(w.is_complete(&boxes), Err(()));
}

#[test]
fn release_allows_exactly_one_upgrade() {
    let mut boxes: FutureBoxes<u32> = FutureBoxes::new(1);
    let h = fresh(&mut boxes, 7, Source::Userspace);
    let w = h.kernel_waiter(&mut boxes);
    assert_eq!(w.try_upgrade(&mut boxes), Ok(None));
    let _mon = h.release_to_kernel(&mut boxes);
    let again = match w.try_upgrade(&mut boxes) {
        Ok(Some(x)) => x,
        other => panic!("no upgrade: {:?}", other),
    };
    assert_eq!(boxes.payload(&again), Some(&7));
    assert!(boxes.set_payload(&again, 9));
    assert_eq!(boxes.payload(&again), Some(&9));
    assert_eq!(w.try_upgrade(&mut boxes), Ok(None));
    again.release_to_complete(&mut boxes);
    assert_eq!(boxes.status_of(0), Some(COMPLETED));
    assert_eq!(w.is_complete(&boxes), Ok(true));
}

#[test]
fn block_freed_with_last_handle() {
    let mut boxes: FutureBoxes<u32> = FutureBoxes::new(1);
    let h = fresh(&mut boxes, 7, Source::Kernel);
    let mon = h.create_monitor(&mut boxes);
    assert_eq!((mon.fb(), mon.awaiting()), (0, INVALID));
    h.release_to_complete(&mut boxes);
    assert!(boxes.is_live(0));
    assert_eq!(mon.is_complete(&boxes), Ok(true));
    mon.release(&mut boxes);
    assert!(!boxes.is_live(0));
    assert_eq!(boxes.capacity(), 1);
}

#[test]
fn allocation_takes_lowest_free_slot() {
    let mut boxes: FutureBoxes<u32> = FutureBoxes::new(2);
    let a = fresh(&mut boxes, 1, Source::Kernel);
    let b = fresh(&mut boxes, 2, Source::Kernel);
    assert_eq!((a.fb(), b.fb()), (0, 1));
    assert!(FutureBoxExHdl::new_exclusive(&mut boxes, 3, Source::Kernel).is_err());
    a.release_to_error(&mut boxes);
    let c = fresh(&mut boxes, 4, Source::Userspace);
    assert_eq!(c.fb(), 0);
    assert_eq!(boxes.status_of(0), Some(USERSPACE_ACCESS));
    assert_eq!(Source::Kernel.tag(), KERNEL_ACCESS);
    let m = c.convert_to_monitor();
    assert_eq!(m.awaiting(), INVALID);
}
