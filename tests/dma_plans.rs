use spim_dma::dma::{
    frequency_for, plan_split_even, plan_split_uneven, plan_write, slice_in_ram, slice_in_ram_or,
    transfer_outcome, DmaSlice, Error, Frequency, EASY_DMA_SIZE,
};

#[test]
fn frequency_bands_round_down() {
    assert_eq!(frequency_for(0), None);
    assert_eq!(frequency_for(124), None);
    assert_eq!(frequency_for(125), Some(Frequency::K125));
    assert_eq!(frequency_for(249), Some(Frequency::K125));
    assert_eq!(frequency_for(250), Some(Frequency::K250));
    assert_eq!(frequency_for(999), Some(Frequency::K500));
    assert_eq!(frequency_for(1000), Some(Frequency::M1));
    assert_eq!(frequency_for(3999), Some(Frequency::M2));
    assert_eq!(frequency_for(4000), Some(Frequency::M4));
    assert_eq!(frequency_for(8000), Some(Frequency::M8));
    assert_eq!(frequency_for(31999), Some(Frequency::M16));
    assert_eq!(frequency_for(32000), Some(Frequency::M32));
    assert_eq!(frequency_for(u32::MAX), Some(Frequency::M32));
}

#[test]
fn ram_bounds() {
    assert!(slice_in_ram(0x2000_0000, 16));
    assert!(!slice_in_ram(0x1FFF_FFFF, 1));
    assert!(!slice_in_ram(0x2FFF_FFF0, 16));
    assert!(slice_in_ram(0x2FFF_FFF0, 15));
    assert!(!slice_in_ram(0x0001_0000, 4));
    assert_eq!(slice_in_ram_or(0x0001_0000, 4, 5u8), Err(5));
    assert_eq!(slice_in_ram_or(0x2000_0000, 4, 5u8), Ok(()));
}

#[test]
fn dma_slices() {
    assert_eq!(DmaSlice::null(), DmaSlice { ptr: 0, len: 0 });
    assert_eq!(DmaSlice::from_slice(0x2000_0010, 3), DmaSlice { ptr: 0x2000_0010, len: 3 });
}

#[test]
fn outcome_of_single_transfer() {
    let t = DmaSlice { ptr: 0x2000_0000, len: 4 };
    let r = DmaSlice { ptr: 0x2000_1000, len: 2 };
    assert_eq!(transfer_outcome(t, r, 4, 2), Ok(()));
    assert_eq!(transfer_outcome(t, r, 3, 2), Err(Error::Transmit));
    assert_eq!(transfer_outcome(t, r, 4, 1), Err(Error::Receive));
}

#[test]
fn even_split_stops_with_shorter_buffer() {
    let plan = match plan_split_even(0x2000_0000, 70000, 0x2100_0000, 70000) {
        Ok(p) => p,
        Err(e) => panic!("{:?}", e),
    };
    assert_eq!(plan.len(), 2);
    assert_eq!(plan[0].0, DmaSlice { ptr: 0x2000_0000, len: EASY_DMA_SIZE as u32 });
    assert_eq!(plan[1].0, DmaSlice { ptr: 0x2000_0000 + 65535, len: 4465 });
    assert_eq!(plan[1].1, DmaSlice { ptr: 0x2100_0000 + 65535, len: 4465 });
    let short = plan_split_even(0x2000_0000, 70000, 0x2100_0000, 10).unwrap();
    assert_eq!(short.len(), 1);
    assert_eq!(short[0].1, DmaSlice { ptr: 0x2100_0000, len: 10 });
}

#[test]
fn uneven_split_pads_shorter_side() {
    let plan = plan_split_uneven(0x2000_0000, 10, 0x2100_0000, 70000).unwrap();
    assert_eq!(plan.len(), 2);
    assert_eq!(plan[0].0, DmaSlice { ptr: 0x2000_0000, len: 10 });
    assert_eq!(plan[1].0, DmaSlice::null());
    assert_eq!(plan[1].1, DmaSlice { ptr: 0x2100_0000 + 65535, len: 4465 });
    let rx_only = plan_split_uneven(0x0000_1000, 0, 0x2100_0000, 5).unwrap();
    assert_eq!(rx_only, vec![(DmaSlice::null(), DmaSlice { ptr: 0x2100_0000, len: 5 })]);
    assert_eq!(plan_split_uneven(0, 0, 0, 0).unwrap(), vec![]);
}

#[test]
fn flash_buffer_is_refused() {
    assert_eq!(plan_split_even(0x0000_1000, 4, 0x2000_0000, 4), Err(Error::DMABufferNotInDataMemory));
    assert_eq!(plan_split_uneven(0x0000_1000, 4, 0x2000_0000, 4), Err(Error::DMABufferNotInDataMemory));
    assert_eq!(plan_write(0x0000_1000, 4), Err(Error::DMABufferNotInDataMemory));
}

#[test]
fn write_sends_only() {
    let plan = plan_write(0x2000_0000, 65536).unwrap();
    assert_eq!(
        plan,
        vec![
            (DmaSlice { ptr: 0x2000_0000, len: 65535 }, DmaSlice::null()),
            (DmaSlice { ptr: 0x2000_0000 + 65535, len: 1 }, DmaSlice::null()),
        ]
    );
}
