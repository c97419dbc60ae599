use midah::gain::{combine_volume, Gain, GAIN_UNIT, VOLUME_UNIT};

#[test]
fn gain_clamps_at_both_ends() {
    assert_eq!(Gain::clamped(-5).millionths(), 0);
    assert_eq!(Gain::clamped(2_000_000).millionths(), GAIN_UNIT);
    assert_eq!(Gain::clamped(250_000).millionths(), 250_000);
}

#[test]
fn composed_volume_is_the_product() {
    let v = combine_volume(Gain::clamped(500_000), Gain::clamped(800_000));
    assert_eq!(v.trillionths(), 400_000_000_000);
    let one = combine_volume(Gain::full(), Gain::full());
    assert_eq!(one.trillionths(), VOLUME_UNIT);
    let none = combine_volume(Gain::silent(), Gain::full());
    assert_eq!(none.trillionths(), 0);
}
