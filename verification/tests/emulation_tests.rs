use rquest_rb::emulation::{
    Bias, Profile, get_random_desktop_emulation, get_random_emulation, get_random_mobile_emulation,
    select, select_with_bias,
};
use rquest_rb::rng::XorShiftRng;

fn counts_as_desktop(p: Profile) -> bool {
    matches!(
        p,
        Profile::Chrome134
            | Profile::Chrome128
            | Profile::Chrome101
            | Profile::Firefox135
            | Profile::Safari17_0
    )
}

#[test]
fn desktop_draws_stay_on_the_desktop_side() {
    let mut rng = XorShiftRng::from_seed(7);
    for _ in 0..200 {
        assert!(counts_as_desktop(get_random_desktop_emulation(&mut rng)));
    }
}

#[test]
fn mobile_draws_stay_on_the_mobile_side() {
    let mut rng = XorShiftRng::from_seed(7);
    for _ in 0..200 {
        assert!(!counts_as_desktop(get_random_mobile_emulation(&mut rng)));
    }
}

#[test]
fn select_honours_the_requested_side() {
    let mut rng = XorShiftRng::from_seed(11);
    for _ in 0..50 {
        assert!(counts_as_desktop(select(Bias::Desktop, &mut rng)));
        assert!(!counts_as_desktop(select(Bias::Mobile, &mut rng)));
    }
}

#[test]
fn extreme_biases_are_one_sided() {
    let mut rng = XorShiftRng::from_seed(13);
    for _ in 0..100 {
        assert!(counts_as_desktop(select_with_bias(&mut rng, 100)));
    }
    for _ in 0..100 {
        assert!(!counts_as_desktop(select_with_bias(&mut rng, 0)));
    }
}

#[test]
fn mixed_draws_converge_to_the_bias_percentage() {
    let mut rng = XorShiftRng::from_seed(0x123456789);
    let total = 100000;
    let mut desktop = 0;
    for _ in 0..total {
        if counts_as_desktop(get_random_emulation(&mut rng)) {
            desktop += 1;
        }
    }
    let percent = desktop * 100 / total;
    assert!(
        (77..=83).contains(&percent),
        "desktop share was {percent}%, expected about 80%"
    );
}
