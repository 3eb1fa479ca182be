use vstd::prelude::*;
use crate::rng::{XorShiftRng, fast_random, xorshift_next, xorshift_output};

verus! {

/// A browser network identity that the transport engine can emulate:
/// TLS handshake shape, header ordering and default user agent.
#[derive(Clone, Copy, PartialEq, Eq, Structural, Debug)]
pub enum Profile {
    Chrome134,
    Chrome128,
    Chrome101,
    Firefox135,
    Safari17_0,
    SafariIos17_4_1,
    SafariIos17_2,
    SafariIos16_5,
    FirefoxAndroid135,
}

/// Which side of the catalog a caller wants drawn.
#[derive(Clone, Copy, PartialEq, Eq, Structural, Debug)]
pub enum Bias {
    Desktop,
    Mobile,
    Mixed,
}

/// Chance, in percent, that a mixed draw picks a desktop identity.
pub const DESKTOP_BIAS_PERCENT: u64 = 80;

/// The fixed catalog of desktop identities.
pub open spec fn desktop_catalog() -> Seq<Profile> {
    seq![
        Profile::Chrome134,
        Profile::Chrome128,
        Profile::Chrome101,
        Profile::Firefox135,
        Profile::Safari17_0,
    ]
}

/// The fixed catalog of mobile identities.
pub open spec fn mobile_catalog() -> Seq<Profile> {
    seq![
        Profile::SafariIos17_4_1,
        Profile::SafariIos17_2,
        Profile::SafariIos16_5,
        Profile::FirefoxAndroid135,
    ]
}

pub open spec fn is_desktop(p: Profile) -> bool {
    desktop_catalog().contains(p)
}

pub open spec fn is_mobile(p: Profile) -> bool {
    mobile_catalog().contains(p)
}

/// Every identity is on exactly one side of the catalog.
pub proof fn lemma_profile_sides(p: Profile)
    ensures
        is_desktop(p) <==> !is_mobile(p),
{
    match p {
        Profile::Chrome134 => {
            assert(desktop_catalog()[0] == p);
            assert(forall|i: int| 0 <= i < 4 ==> mobile_catalog()[i] != p);
        },
        Profile::Chrome128 => {
            assert(desktop_catalog()[1] == p);
            assert(forall|i: int| 0 <= i < 4 ==> mobile_catalog()[i] != p);
        },
        Profile::Chrome101 => {
            assert(desktop_catalog()[2] == p);
            assert(forall|i: int| 0 <= i < 4 ==> mobile_catalog()[i] != p);
        },
        Profile::Firefox135 => {
            assert(desktop_catalog()[3] == p);
            assert(forall|i: int| 0 <= i < 4 ==> mobile_catalog()[i] != p);
        },
        Profile::Safari17_0 => {
            assert(desktop_catalog()[4] == p);
            assert(forall|i: int| 0 <= i < 4 ==> mobile_catalog()[i] != p);
        },
        Profile::SafariIos17_4_1 => {
            assert(mobile_catalog()[0] == p);
            assert(forall|i: int| 0 <= i < 5 ==> desktop_catalog()[i] != p);
        },
        Profile::SafariIos17_2 => {
            assert(mobile_catalog()[1] == p);
            assert(forall|i: int| 0 <= i < 5 ==> desktop_catalog()[i] != p);
        },
        Profile::SafariIos16_5 => {
            assert(mobile_catalog()[2] == p);
            assert(forall|i: int| 0 <= i < 5 ==> desktop_catalog()[i] != p);
        },
        Profile::FirefoxAndroid135 => {
            assert(mobile_catalog()[3] == p);
            assert(forall|i: int| 0 <= i < 5 ==> desktop_catalog()[i] != p);
        },
    }
}

/// The desktop identity one draw picks from state `state`.
pub open spec fn spec_desktop_pick(state: u64) -> Profile {
    desktop_catalog()[xorshift_output(state) as int % 5]
}

/// The mobile identity one draw picks from state `state`.
pub open spec fn spec_mobile_pick(state: u64) -> Profile {
    mobile_catalog()[xorshift_output(state) as int % 4]
}

/// The identity a mixed draw picks from state `state`: the first draw is a
/// weight in [0, 100), a second draw indexes the chosen catalog.
pub open spec fn spec_mixed_pick(state: u64, bias_percent: u64) -> Profile {
    if xorshift_output(state) % 100 < bias_percent {
        spec_desktop_pick(xorshift_next(state))
    } else {
        spec_mobile_pick(xorshift_next(state))
    }
}

/// A mixed draw lands on the desktop side exactly when its weight draw is
/// below the bias percentage.
pub proof fn lemma_mixed_pick_bias(state: u64, bias_percent: u64)
    ensures
        is_desktop(spec_mixed_pick(state, bias_percent)) <==> xorshift_output(state) % 100
            < bias_percent,
{
    let next = xorshift_next(state);
    assert(is_desktop(spec_desktop_pick(next))) by {
        assert(desktop_catalog().contains(desktop_catalog()[xorshift_output(next) as int % 5]));
    }
    assert(is_mobile(spec_mobile_pick(next))) by {
        assert(mobile_catalog().contains(mobile_catalog()[xorshift_output(next) as int % 4]));
    }
    lemma_profile_sides(spec_mobile_pick(next));
}

/// Draws one of the desktop identities, uniformly.
pub fn get_random_desktop_emulation(rng: &mut XorShiftRng) -> (r: Profile)
    requires
        old(rng).wf(),
    ensures
        final(rng).wf(),
        final(rng)@ == xorshift_next(old(rng)@),
        r == spec_desktop_pick(old(rng)@),
        is_desktop(r),
{
    let d = fast_random(rng) % 5;
    let r = if d == 0 {
        Profile::Chrome134
    } else if d == 1 {
        Profile::Chrome128
    } else if d == 2 {
        Profile::Chrome101
    } else if d == 3 {
        Profile::Firefox135
    } else {
        Profile::Safari17_0
    };
    proof {
        assert(desktop_catalog().contains(r)) by {
            assert(desktop_catalog()[xorshift_output(old(rng)@) as int % 5] == r);
        }
    }
    r
}

/// Draws one of the mobile identities, uniformly.
pub fn get_random_mobile_emulation(rng: &mut XorShiftRng) -> (r: Profile)
    requires
        old(rng).wf(),
    ensures
        final(rng).wf(),
        final(rng)@ == xorshift_next(old(rng)@),
        r == spec_mobile_pick(old(rng)@),
        is_mobile(r),
{
    let d = fast_random(rng) % 4;
    let r = if d == 0 {
        Profile::SafariIos17_4_1
    } else if d == 1 {
        Profile::SafariIos17_2
    } else if d == 2 {
        Profile::SafariIos16_5
    } else {
        Profile::FirefoxAndroid135
    };
    proof {
        assert(mobile_catalog().contains(r)) by {
            assert(mobile_catalog()[xorshift_output(old(rng)@) as int % 4] == r);
        }
    }
    r
}

/// Draws a weight in [0, 100) and picks a desktop identity when it falls
/// below `bias_percent`, a mobile identity otherwise.
pub fn select_with_bias(rng: &mut XorShiftRng, bias_percent: u64) -> (r: Profile)
    requires
        old(rng).wf(),
        bias_percent <= 100,
    ensures
        final(rng).wf(),
        final(rng)@ == xorshift_next(xorshift_next(old(rng)@)),
        r == spec_mixed_pick(old(rng)@, bias_percent),
{
    let w = fast_random(rng) % 100;
    if w < bias_percent {
        get_random_desktop_emulation(rng)
    } else {
        get_random_mobile_emulation(rng)
    }
}

/// Draws an identity with the default desktop bias.
pub fn get_random_emulation(rng: &mut XorShiftRng) -> (r: Profile)
    requires
        old(rng).wf(),
    ensures
        final(rng).wf(),
        final(rng)@ == xorshift_next(xorshift_next(old(rng)@)),
        r == spec_mixed_pick(old(rng)@, DESKTOP_BIAS_PERCENT),
{
    select_with_bias(rng, DESKTOP_BIAS_PERCENT)
}

/// Draws an identity on the side `bias` asks for.
pub fn select(bias: Bias, rng: &mut XorShiftRng) -> (r: Profile)
    requires
        old(rng).wf(),
    ensures
        final(rng).wf(),
        match bias {
            Bias::Desktop => r == spec_desktop_pick(old(rng)@) && final(rng)@ == xorshift_next(
                old(rng)@,
            ),
            Bias::Mobile => r == spec_mobile_pick(old(rng)@) && final(rng)@ == xorshift_next(
                old(rng)@,
            ),
            Bias::Mixed => r == spec_mixed_pick(old(rng)@, DESKTOP_BIAS_PERCENT) && final(rng)@
                == xorshift_next(xorshift_next(old(rng)@)),
        },
{
    match bias {
        Bias::Desktop => get_random_desktop_emulation(rng),
        Bias::Mobile => get_random_mobile_emulation(rng),
        Bias::Mixed => get_random_emulation(rng),
    }
}

} // verus!
