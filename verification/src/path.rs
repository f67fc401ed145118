//! The bounce budget of a light path.
//!
//! A ray that starts at the camera may meet a surface, scatter, meet another
//! surface, and so on, until it leaves the scene. Each scattering halves the
//! light that the path brings back, and a path may scatter only as often as
//! its budget allows: once the budget is spent the path is given up and counts
//! as black. This module keeps that account. Following the ray itself is the
//! caller's work: the caller says, segment by segment, whether the ray met a
//! surface.

use vstd::prelude::*;

verus! {

/// The light that a path brings back.
#[derive(Clone, Copy, Debug, PartialEq, Eq, Structural)]
pub enum Light {
    /// No light: the budget was spent before the ray left the scene.
    Black,
    /// The sky's light where the ray left the scene, halved `halvings` times.
    Sky { halvings: u32 },
}

impl Light {
    /// Half of this light.
    pub open spec fn halved(self) -> Light {
        match self {
            Light::Black => Light::Black,
            Light::Sky { halvings } => Light::Sky { halvings: (halvings + 1) as u32 },
        }
    }
}

/// The light of a ray that may still scatter `depth` times and that meets
/// `hits` surfaces in a row before it leaves the scene: nothing when no
/// scattering is left; the sky's light when the ray meets no surface; else
/// half the light of the scattered ray, which may scatter once less.
pub open spec fn traced(depth: u32, hits: nat) -> Light
    decreases depth,
{
    if depth == 0 {
        Light::Black
    } else if hits == 0 {
        Light::Sky { halvings: 0 }
    } else {
        traced((depth - 1) as u32, (hits - 1) as nat).halved()
    }
}

/// The same light in closed form: black when the ray meets at least `depth`
/// surfaces, else the sky's light halved once for each surface.
pub open spec fn light_of(depth: u32, hits: nat) -> Light {
    if hits >= depth {
        Light::Black
    } else {
        Light::Sky { halvings: hits as u32 }
    }
}

/// The recursive account and the closed form agree.
pub proof fn lemma_traced_is_light_of(depth: u32, hits: nat)
    ensures
        traced(depth, hits) == light_of(depth, hits),
    decreases depth,
{
    if depth > 0 && hits > 0 {
        lemma_traced_is_light_of((depth - 1) as u32, (hits - 1) as nat);
    }
}

/// With no scattering left a ray is black, whatever it meets.
pub proof fn lemma_no_depth_is_black(hits: nat)
    ensures
        traced(0, hits) == Light::Black,
{
}

/// A ray with scattering left that meets nothing brings back the sky's light
/// unhalved.
pub proof fn lemma_miss_is_sky(depth: u32)
    requires
        depth > 0,
    ensures
        traced(depth, 0) == (Light::Sky { halvings: 0 }),
{
}

/// `meets` may answer that each of the first `hits` segments of the ray met a
/// surface and, when the budget reaches that far, that the next one met none.
pub open spec fn may_meet<F: Fn(u32) -> bool>(meets: F, max_depth: u32, hits: nat) -> bool {
    &&& forall|k: u32| k < hits && k < max_depth ==> call_ensures(meets, (k,), true)
    &&& hits < max_depth ==> call_ensures(meets, (hits as u32,), false)
}

/// `meets` can only answer that the ray meets exactly `hits` surfaces in a
/// row: its first `hits` segments each meet one, and the next meets none.
pub open spec fn must_meet<F: Fn(u32) -> bool>(meets: F, max_depth: u32, hits: nat) -> bool {
    &&& forall|k: u32| k < hits && k < max_depth ==> !call_ensures(meets, (k,), false)
    &&& hits < max_depth ==> !call_ensures(meets, (hits as u32,), true)
}

/// The colour of a ray that may still scatter `remaining_depth` times, as
/// the light that it brings back.
///
/// `meets(k)` is asked, for `k` from 0 on, whether the ray met a surface on
/// its segment after `k` bounces; where it did, the caller scatters the ray
/// before it answers. The ray is followed until a segment meets nothing or
/// the budget is spent, and no further: with a budget of 0 `meets` is never
/// asked, and the light is black.
///
/// The light is that of some number of surfaces that `meets` may report, and
/// where `meets` can report one number only, that of this number.
pub fn color<F: Fn(u32) -> bool>(remaining_depth: u32, meets: F) -> (light: Light)
    requires
        forall|k: u32| k < remaining_depth ==> call_requires(meets, (k,)),
    ensures
        remaining_depth == 0 ==> light == Light::Black,
        exists|hits: nat| #[trigger]
            may_meet(meets, remaining_depth, hits) && light == traced(remaining_depth, hits),
        forall|hits: nat| #[trigger]
            must_meet(meets, remaining_depth, hits) ==> light == traced(remaining_depth, hits),
{
    let max_depth = remaining_depth;
    let mut bounces: u32 = 0;
    while bounces < max_depth
        invariant
            bounces <= max_depth,
            max_depth == remaining_depth,
            forall|k: u32| k < max_depth ==> call_requires(meets, (k,)),
            forall|k: u32| k < bounces ==> call_ensures(meets, (k,), true),
        decreases max_depth - bounces,
    {
        if !meets(bounces) {
            proof {
                let met = bounces as nat;
                assert(may_meet(meets, max_depth, met));
                lemma_traced_is_light_of(max_depth, met);
                assert forall|hits: nat| #[trigger] must_meet(meets, max_depth, hits) implies Light::Sky {
                    halvings: bounces,
                } == traced(max_depth, hits) by {
                    lemma_traced_is_light_of(max_depth, hits);
                    if hits < met {
                        assert(call_ensures(meets, (hits as u32,), true));
                    } else if hits > met {
                        assert(call_ensures(meets, (bounces,), false));
                    }
                }
            }
            return Light::Sky { halvings: bounces };
        }
        bounces += 1;
    }
    proof {
        let met = max_depth as nat;
        assert(may_meet(meets, max_depth, met));
        lemma_traced_is_light_of(max_depth, met);
        assert forall|hits: nat| #[trigger] must_meet(meets, max_depth, hits) implies Light::Black == traced(
            max_depth,
            hits,
        ) by {
            lemma_traced_is_light_of(max_depth, hits);
            if hits < met {
                assert(call_ensures(meets, (hits as u32,), true));
            }
        }
    }
    Light::Black
}

} // verus!
