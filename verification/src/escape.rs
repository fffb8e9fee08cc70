use crate::pixel::{Pixel, OPAQUE};
use vstd::prelude::*;

verus! {

/// The iteration cap of the escape-time loop.
pub const MAX_ITER: usize = 255;

/// `orbit` is a run of the escape-time iteration from `start`: every point
/// but the last was still inside the escape radius and was advanced to its
/// successor.
pub open spec fn is_orbit<Z, B: Fn(&Z) -> bool, N: Fn(&Z) -> Z>(
    start: Z,
    inside: &B,
    advance: &N,
    orbit: Seq<Z>,
) -> bool {
    &&& orbit.len() >= 1
    &&& orbit[0] == start
    &&& forall|k: int|
        0 <= k < orbit.len() - 1 ==> inside.ensures((&#[trigger] orbit[k],), true)
            && advance.ensures((&orbit[k],), orbit[k + 1])
}

/// `orbit` is the complete run that the colourizer makes from `start`: it
/// stops at the first point outside the escape radius, or after `MAX_ITER`
/// steps, whichever comes first.
pub open spec fn is_escape_run<Z, B: Fn(&Z) -> bool, N: Fn(&Z) -> Z>(
    start: Z,
    inside: &B,
    advance: &N,
    orbit: Seq<Z>,
) -> bool {
    &&& is_orbit(start, inside, advance, orbit)
    &&& orbit.len() - 1 <= MAX_ITER
    &&& orbit.len() - 1 < MAX_ITER ==> inside.ensures((&orbit.last(),), false)
}

/// The pixel that a complete run ends in, always opaque: where the run
/// escaped before the cap, the caller's colour of the last point and the
/// step count; black where it ran into the cap.
pub open spec fn colour_of_run<Z, C: Fn(&Z, usize) -> Pixel>(
    colour: &C,
    orbit: Seq<Z>,
    pixel: Pixel,
) -> bool {
    if orbit.len() - 1 < MAX_ITER {
        exists|shaded: Pixel| #[trigger]
            colour.ensures((&orbit.last(), (orbit.len() - 1) as usize), shaded) && pixel
                == shaded.opaque()
    } else {
        pixel == (Pixel { r: 0, g: 0, b: 0, a: OPAQUE })
    }
}

/// Two runs from the same start agree on every point that both have.
proof fn lemma_orbits_agree<Z, B: Fn(&Z) -> bool, N: Fn(&Z) -> Z>(
    start: Z,
    inside: &B,
    advance: &N,
    first: Seq<Z>,
    second: Seq<Z>,
    k: int,
)
    requires
        forall|z: &Z, next1: Z, next2: Z|
            #![trigger advance.ensures((z,), next1), advance.ensures((z,), next2)]
            advance.ensures((z,), next1) && advance.ensures((z,), next2) ==> next1 == next2,
        is_orbit(start, inside, advance, first),
        is_orbit(start, inside, advance, second),
        0 <= k < first.len(),
        k < second.len(),
    ensures
        first[k] == second[k],
    decreases k,
{
    if k > 0 {
        lemma_orbits_agree(start, inside, advance, first, second, k - 1);
        let i = k - 1;
        assert(0 <= i < first.len() - 1);
        assert(inside.ensures((&first[i],), true));
        assert(advance.ensures((&first[i],), first[i + 1]));
        assert(advance.ensures((&second[i],), second[i + 1]));
    }
}

/// Determinism law: where the caller's arithmetic is a function, that is
/// each of the three closures has one result per argument, the colourizer
/// is one too: any two complete runs from the same start are the same run
/// and end in the same colour.
pub proof fn lemma_colour_is_determined<
    Z,
    B: Fn(&Z) -> bool,
    N: Fn(&Z) -> Z,
    C: Fn(&Z, usize) -> Pixel,
>(
    start: Z,
    inside: &B,
    advance: &N,
    colour: &C,
    first: Seq<Z>,
    first_pixel: Pixel,
    second: Seq<Z>,
    second_pixel: Pixel,
)
    requires
        forall|z: &Z, in1: bool, in2: bool|
            #![trigger inside.ensures((z,), in1), inside.ensures((z,), in2)]
            inside.ensures((z,), in1) && inside.ensures((z,), in2) ==> in1 == in2,
        forall|z: &Z, next1: Z, next2: Z|
            #![trigger advance.ensures((z,), next1), advance.ensures((z,), next2)]
            advance.ensures((z,), next1) && advance.ensures((z,), next2) ==> next1 == next2,
        forall|z: &Z, iters: usize, pixel1: Pixel, pixel2: Pixel|
            #![trigger colour.ensures((z, iters), pixel1), colour.ensures((z, iters), pixel2)]
            colour.ensures((z, iters), pixel1) && colour.ensures((z, iters), pixel2) ==> pixel1
                == pixel2,
        is_escape_run(start, inside, advance, first),
        colour_of_run(colour, first, first_pixel),
        is_escape_run(start, inside, advance, second),
        colour_of_run(colour, second, second_pixel),
    ensures
        first == second,
        first_pixel == second_pixel,
{
    if first.len() < second.len() {
        let k = first.len() - 1;
        lemma_orbits_agree(start, inside, advance, first, second, k);
        assert(inside.ensures((&second[k],), true));
        assert(inside.ensures((&first[k],), false));
    } else if second.len() < first.len() {
        let k = second.len() - 1;
        lemma_orbits_agree(start, inside, advance, first, second, k);
        assert(inside.ensures((&first[k],), true));
        assert(inside.ensures((&second[k],), false));
    }
    assert forall|k: int| 0 <= k < first.len() implies first[k] == second[k] by {
        lemma_orbits_agree(start, inside, advance, first, second, k);
    }
    assert(first =~= second);
}

/// Where the escape-time loop stopped.
pub struct Escape<Z> {
    /// The last point of the orbit.
    pub z: Z,
    /// The number of steps taken, never more than `MAX_ITER`.
    pub iters: usize,
}

/// Runs the escape-time loop from `start`: while the point is inside the
/// escape radius and fewer than `MAX_ITER` steps were taken, advance.
pub fn escape_time<Z, B: Fn(&Z) -> bool, N: Fn(&Z) -> Z>(start: Z, inside: &B, advance: &N) -> (out:
    Escape<Z>)
    requires
        forall|z: &Z| #[trigger] inside.requires((z,)),
        forall|z: &Z| #[trigger] advance.requires((z,)),
    ensures
        out.iters <= MAX_ITER,
        exists|orbit: Seq<Z>|
            #![trigger is_escape_run(start, inside, advance, orbit)]
            is_escape_run(start, inside, advance, orbit) && orbit.len() - 1 == out.iters
                && orbit.last() == out.z,
{
    let mut z = start;
    let mut iters: usize = 0;
    let ghost mut orbit: Seq<Z> = seq![start];
    loop
        invariant
            forall|z: &Z| #[trigger] inside.requires((z,)),
            forall|z: &Z| #[trigger] advance.requires((z,)),
            iters <= MAX_ITER,
            is_orbit(start, inside, advance, orbit),
            orbit.len() - 1 == iters,
            orbit.last() == z,
        ensures
            is_escape_run(start, inside, advance, orbit),
        decreases MAX_ITER - iters,
    {
        let within = inside(&z);
        if !(within && iters < MAX_ITER) {
            break ;
        }
        let next = advance(&z);
        proof {
            let longer = orbit.push(next);
            assert forall|k: int| 0 <= k < longer.len() - 1 implies inside.ensures(
                (&#[trigger] longer[k],),
                true,
            ) && advance.ensures((&longer[k],), longer[k + 1]) by {
                if k < orbit.len() - 1 {
                    assert(longer[k] == orbit[k]);
                    assert(longer[k + 1] == orbit[k + 1]);
                }
            }
            orbit = longer;
        }
        z = next;
        iters = iters + 1;
    }
    Escape { z, iters }
}

/// Colours one point of the plane: runs the escape-time loop from `start`
/// and, where the run escaped before the cap, asks `colour` for the colour of
/// the last point and the step count; a run that reached the cap is black.
/// The pixel is opaque either way, whatever alpha `colour` returns.
pub fn calc_pixel<Z, B: Fn(&Z) -> bool, N: Fn(&Z) -> Z, C: Fn(&Z, usize) -> Pixel>(
    start: Z,
    inside: &B,
    advance: &N,
    colour: &C,
) -> (pixel: Pixel)
    requires
        forall|z: &Z| #[trigger] inside.requires((z,)),
        forall|z: &Z| #[trigger] advance.requires((z,)),
        forall|z: &Z, iters: usize| iters < MAX_ITER ==> #[trigger] colour.requires((z, iters)),
    ensures
        pixel.a == OPAQUE,
        exists|orbit: Seq<Z>|
            #![trigger is_escape_run(start, inside, advance, orbit)]
            is_escape_run(start, inside, advance, orbit) && colour_of_run(colour, orbit, pixel),
{
    let out = escape_time(start, inside, advance);
    if out.iters < MAX_ITER {
        let shaded = colour(&out.z, out.iters);
        Pixel::from_rgb(shaded.r, shaded.g, shaded.b)
    } else {
        Pixel::from_rgb(0, 0, 0)
    }
}

} // verus!
