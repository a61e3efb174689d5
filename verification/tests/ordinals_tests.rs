use hord_db::ordinals::starting_sat;

#[test]
fn starting_sat_genesis() {
    assert_eq!(starting_sat(0), 0);
}

#[test]
fn starting_sat_first_blocks() {
    assert_eq!(starting_sat(1), 5_000_000_000);
    assert_eq!(starting_sat(2), 10_000_000_000);
}

#[test]
fn starting_sat_first_halving() {
    assert_eq!(starting_sat(210_000), 1_050_000_000_000_000);
    assert_eq!(starting_sat(210_001), 1_050_002_500_000_000);
}

#[test]
fn starting_sat_activation_height() {
    assert_eq!(starting_sat(767_430), 1_923_393_750_000_000);
}

#[test]
fn starting_sat_height_800000() {
    assert_eq!(starting_sat(800_000), 1_943_750_000_000_000);
}

#[test]
fn starting_sat_saturates_after_subsidies_end() {
    // From epoch 33 on the halved subsidy is zero, so the total supply in
    // satoshis stays constant.
    let exhausted = starting_sat(33 * 210_000);
    assert_eq!(starting_sat(33 * 210_000 + 1), exhausted);
    assert_eq!(starting_sat(u32::MAX), exhausted);
    assert!(exhausted < 2_100_000_000_000_000);
}
