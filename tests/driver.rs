use spim_dma::dma::{Error, Frequency};
use spim_dma::future_box::{FutureBoxExHdl, FutureBoxPendHdl, INVALID};

fn ids(r: Result<FutureBoxPendHdl, FutureBoxExHdl>) -> Result<usize, usize> {
    r.map(|m| m.fb()).map_err(|h| h.fb())
}
use spim_dma::spim::{new_send_fut, Command, Spim};

fn kernel_send(spim: &mut Spim, csn: u8, khz: u32, count: usize) -> FutureBoxExHdl {
    match new_send_fut(&mut spim.boxes, csn, khz, count) {
        Ok(h) => h,
        Err(()) => panic!("no free block"),
    }
}

fn admitted(r: Result<FutureBoxPendHdl, FutureBoxExHdl>) -> FutureBoxPendHdl {
    match r {
        Ok(m) => m,
        Err(h) => panic!("refused {:?}", h),
    }
}

#[test]
fn single_buffer_completes() {
    let mut spim = Spim::new(2, 8);
    let mut cmds = Vec::new();
    let h = kernel_send(&mut spim, 0, 1000, 16);
    let mon = admitted(spim.send(h, &mut cmds));
    assert!(spim.is_transferring());
    assert_eq!(cmds, vec![Command::Start { csn: 0, frequency: Frequency::M1, block: 0, offset: 0 }]);
    assert_eq!(mon.is_complete(&spim.boxes), Ok(false));

    assert_eq!(spim.end_send(Ok((16, 0)), &mut cmds), Ok(()));
    assert_eq!(cmds[1], Command::Deselect { csn: 0 });
    assert_eq!(cmds.len(), 2);
    assert!(!spim.is_transferring());
    assert_eq!(spim.inflight_len(), 0);
    assert_eq!(mon.is_complete(&spim.boxes), Ok(true));
}

#[test]
fn second_buffer_chains_after_first() {
    let mut spim = Spim::new(2, 8);
    let mut cmds = Vec::new();
    let a = kernel_send(&mut spim, 0, 1000, 16);
    let b = kernel_send(&mut spim, 1, 4000, 4);
    let ma = admitted(spim.send(a, &mut cmds));
    let mb = admitted(spim.send(b, &mut cmds));
    assert_eq!(spim.inflight_len(), 2);
    assert_eq!(cmds.len(), 1);

    assert_eq!(spim.end_send(Ok((16, 0)), &mut cmds), Ok(()));
    assert_eq!(
        cmds,
        vec![
            Command::Start { csn: 0, frequency: Frequency::M1, block: 0, offset: 0 },
            Command::Deselect { csn: 0 },
            Command::Start { csn: 1, frequency: Frequency::M4, block: 1, offset: 0 },
        ]
    );
    assert!(spim.is_transferring());
    assert_eq!(ma.is_complete(&spim.boxes), Ok(true));
    assert_eq!(mb.is_complete(&spim.boxes), Ok(false));

    assert_eq!(spim.end_send(Ok((4, 0)), &mut cmds), Ok(()));
    assert_eq!(mb.is_complete(&spim.boxes), Ok(true));
    assert!(!spim.is_transferring());
}

#[test]
fn short_transfer_pauses_until_restarted() {
    let mut spim = Spim::new(1, 8);
    let mut cmds = Vec::new();
    let h = kernel_send(&mut spim, 0, 1000, 16);
    let mon = admitted(spim.send(h, &mut cmds));

    assert_eq!(spim.end_send(Ok((8, 0)), &mut cmds), Ok(()));
    assert_eq!(spim.front(), Some((0, 8)));
    assert_eq!(spim.inflight_len(), 1);
    assert!(!spim.is_transferring());
    assert_eq!(cmds.len(), 2);
    assert_eq!(cmds[1], Command::Deselect { csn: 0 });
    assert_eq!(mon.is_complete(&spim.boxes), Ok(false));

    spim.start_send(&mut cmds);
    assert_eq!(cmds[2], Command::Start { csn: 0, frequency: Frequency::M1, block: 0, offset: 8 });
    assert!(spim.is_transferring());
    assert_eq!(spim.end_send(Ok((8, 0)), &mut cmds), Ok(()));
    assert_eq!(mon.is_complete(&spim.boxes), Ok(true));
}

#[test]
fn send_to_missing_pin_is_refused() {
    let mut spim = Spim::new(2, 8);
    let mut cmds = Vec::new();
    let h = kernel_send(&mut spim, 2, 1000, 16);
    match spim.send(h, &mut cmds) {
        Ok(_) => panic!("accepted a missing pin"),
        Err(back) => assert_eq!(back.fb(), 0),
    }
    assert!(cmds.is_empty());
    assert_eq!(spim.inflight_len(), 0);
    assert!(!spim.is_transferring());
    assert!(spim.boxes.is_live(0));
}

#[test]
fn send_with_full_queue_is_refused() {
    let mut spim = Spim::new(1, 16);
    let mut cmds = Vec::new();
    for _ in 0..8 {
        let h = kernel_send(&mut spim, 0, 1000, 4);
        admitted(spim.send(h, &mut cmds));
    }
    let h = kernel_send(&mut spim, 0, 1000, 4);
    assert_eq!(ids(spim.send(h, &mut cmds)), Err(8));
    assert_eq!(spim.inflight_len(), 8);
}

#[test]
fn ninth_allocation_is_refused() {
    let mut spim = Spim::new(1, 16);
    for i in 0..8 {
        assert_eq!(spim.alloc_send(0, 1000, 4).map(|h| h.fb()), Some(i));
    }
    assert_eq!(spim.pending_len(), 8);
    assert_eq!(spim.alloc_send(0, 1000, 4), None);
    assert_eq!(spim.pending_len(), 8);
    assert!(!spim.boxes.is_live(8));
}

#[test]
fn allocation_fails_without_free_block() {
    let mut spim = Spim::new(1, 1);
    assert!(spim.alloc_send(0, 1000, 4).is_some());
    assert_eq!(spim.alloc_send(0, 1000, 4), None);
    assert_eq!(spim.pending_len(), 1);
    assert!(new_send_fut(&mut spim.boxes, 0, 1000, 4).is_err());
}

#[test]
fn user_buffer_is_promoted_once_handed_to_kernel() {
    let mut spim = Spim::new(1, 8);
    let mut cmds = Vec::new();
    let h = match spim.alloc_send(0, 500, 3) {
        Some(h) => h,
        None => panic!("refused"),
    };
    assert_eq!(spim.boxes.payload(&h).map(|p| p.data.clone()), Some(vec![0u8, 0, 0]));
    assert_eq!(spim.front_data(), None);
    spim.start_send(&mut cmds);
    assert!(cmds.is_empty());
    assert_eq!(spim.pending_len(), 1);

    let mon = h.release_to_kernel(&mut spim.boxes);
    assert_eq!((mon.fb(), mon.awaiting()), (0, INVALID));
    spim.start_send(&mut cmds);
    assert_eq!(spim.pending_len(), 0);
    assert_eq!(cmds, vec![Command::Start { csn: 0, frequency: Frequency::K500, block: 0, offset: 0 }]);
    assert_eq!(spim.front_data(), Some(&vec![0u8, 0, 0]));
    assert_eq!(spim.end_send(Ok((3, 0)), &mut cmds), Ok(()));
    assert_eq!(mon.is_complete(&spim.boxes), Ok(true));
}

#[test]
fn failed_pending_entry_is_dropped() {
    let mut spim = Spim::new(1, 8);
    let mut cmds = Vec::new();
    let h = match spim.alloc_send(0, 500, 3) {
        Some(h) => h,
        None => panic!("refused"),
    };
    h.release_to_error(&mut spim.boxes);
    spim.start_send(&mut cmds);
    assert_eq!(spim.pending_len(), 0);
    assert!(cmds.is_empty());
    assert!(!spim.boxes.is_live(0));
}

#[test]
fn too_slow_clock_is_refused() {
    let mut spim = Spim::new(1, 8);
    let mut cmds = Vec::new();
    let h = kernel_send(&mut spim, 0, 100, 4);
    assert_eq!(ids(spim.send(h, &mut cmds)), Err(0));
    assert!(cmds.is_empty());
    assert!(!spim.is_transferring());
    assert_eq!(spim.inflight_len(), 0);
}

#[test]
fn fully_sent_front_entry_is_left_alone() {
    let mut spim = Spim::new(1, 8);
    let mut cmds = Vec::new();
    let h = kernel_send(&mut spim, 0, 1000, 0);
    let mon = admitted(spim.send(h, &mut cmds));
    assert!(cmds.is_empty());
    assert!(!spim.is_transferring());
    assert_eq!(spim.front(), Some((0, 0)));
    spim.start_send(&mut cmds);
    assert!(cmds.is_empty());
    assert_eq!(spim.front(), Some((0, 0)));
    assert_eq!(mon.is_complete(&spim.boxes), Ok(false));
}

#[test]
fn user_transaction_frees_its_block() {
    let mut spim = Spim::new(1, 1);
    let mut cmds = Vec::new();
    for _ in 0..3 {
        let h = match spim.alloc_send(0, 1000, 2) {
            Some(h) => h,
            None => panic!("block leaked"),
        };
        let mon = h.release_to_kernel(&mut spim.boxes);
        spim.start_send(&mut cmds);
        assert!(spim.is_transferring());
        assert_eq!(spim.end_send(Ok((2, 0)), &mut cmds), Ok(()));
        assert_eq!(mon.is_complete(&spim.boxes), Ok(true));
        mon.release(&mut spim.boxes);
        assert!(!spim.boxes.is_live(0));
    }
}

#[test]
fn engine_error_keeps_the_transfer() {
    let mut spim = Spim::new(1, 8);
    let mut cmds = Vec::new();
    let h = kernel_send(&mut spim, 0, 1000, 4);
    admitted(spim.send(h, &mut cmds));
    assert_eq!(spim.end_send(Err(Error::NotDone), &mut cmds), Err(Error::NotDone));
    assert!(spim.is_transferring());
    assert_eq!(spim.front(), Some((0, 0)));
    assert_eq!(cmds.len(), 1);
}

#[test]
fn end_event_while_idle_changes_nothing() {
    let mut spim = Spim::new(1, 8);
    let mut cmds = Vec::new();
    assert_eq!(spim.end_send(Ok((5, 5)), &mut cmds), Ok(()));
    assert!(cmds.is_empty());
    assert!(!spim.is_transferring());
    assert_eq!(spim.pin_count(), 1);
}
