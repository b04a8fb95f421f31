//! Light transport along one camera ray, as a state machine.
//!
//! Shading a ray is recursive: a ray that leaves the scene takes the sky
//! colour; a ray that hits a surface is either absorbed (black) or scattered,
//! in which case the colour of the scattered ray, multiplied by the material's
//! attenuation, is the answer. The recursion is cut at a maximum depth, where
//! the colour is black.
//!
//! Here the recursion is unrolled into a machine that the caller drives: the
//! caller traces each ray against the scene, reports what happened as a
//! [`Bounce`], and is told whether to trace the next ray or how the path ends.
use vstd::prelude::*;

verus! {

/// What happened to one traced ray.
#[derive(Clone, Copy, Debug, PartialEq, Eq, Structural)]
pub enum Bounce {
    /// The ray hit nothing: it sees the sky.
    Miss,
    /// The ray hit a surface whose material absorbed it.
    Absorbed,
    /// The ray hit a surface whose material scattered it, with an attenuation.
    Scattered,
}

/// How a ray path ends.
#[derive(Clone, Copy, Debug, PartialEq, Eq, Structural)]
pub enum Shade {
    /// No light reaches the camera along the path.
    Black,
    /// The sky colour seen by the last ray, multiplied component-wise by the
    /// attenuations of the first `bounces` scatters of the path.
    Sky { bounces: usize },
}

/// The mathematical meaning of a [`Shade`].
pub ghost enum Radiance {
    Dark,
    SkyAfter(nat),
}

impl Shade {
    pub open spec fn view(self) -> Radiance {
        match self {
            Shade::Black => Radiance::Dark,
            Shade::Sky { bounces } => Radiance::SkyAfter(bounces as nat),
        }
    }
}

/// The colour of a ray with `depth` bounces left, given the outcomes of the
/// rays of its path in order; `None` when the path is too short to decide.
pub open spec fn ray_colour(depth: nat, path: Seq<Bounce>) -> Option<Radiance>
    decreases depth,
{
    if depth == 0 {
        Some(Radiance::Dark)
    } else if path.len() == 0 {
        None
    } else {
        match path[0] {
            Bounce::Miss => Some(Radiance::SkyAfter(0)),
            Bounce::Absorbed => Some(Radiance::Dark),
            Bounce::Scattered => match ray_colour((depth - 1) as nat, path.drop_first()) {
                Some(Radiance::SkyAfter(n)) => Some(Radiance::SkyAfter(n + 1)),
                other => other,
            },
        }
    }
}

/// What the caller does next.
#[derive(Clone, Copy, Debug, PartialEq, Eq, Structural)]
pub enum Step {
    /// Trace the current ray against the scene and report the outcome.
    Trace,
    /// The path is resolved.
    Done(Shade),
}

/// The state of one ray path being shaded.
#[derive(Clone, Copy, Debug, PartialEq, Eq, Structural)]
pub struct Transport {
    /// How many more rays, the current one included, may still be traced.
    pub remaining: usize,
    /// How many times the path has scattered so far.
    pub bounces: usize,
}

/// Adds `n` scatters in front of a resolved colour.
pub open spec fn after_bounces(r: Option<Radiance>, n: nat) -> Option<Radiance> {
    match r {
        Some(Radiance::SkyAfter(k)) => Some(Radiance::SkyAfter(k + n)),
        other => other,
    }
}

impl Transport {
    /// The counters stay within a machine word.
    pub open spec fn wf(self) -> bool {
        self.remaining + self.bounces <= usize::MAX
    }

    /// The machine right after the camera ray is made, for a maximum depth.
    pub open spec fn initial(max_depth: nat) -> (Transport, Step) {
        (
            Transport { remaining: max_depth as usize, bounces: 0 },
            if max_depth == 0 { Step::Done(Shade::Black) } else { Step::Trace },
        )
    }

    /// One transition: the state and step after the current ray had outcome `e`.
    pub open spec fn step(self, e: Bounce) -> (Transport, Step) {
        match e {
            Bounce::Miss => (self, Step::Done(Shade::Sky { bounces: self.bounces })),
            Bounce::Absorbed => (self, Step::Done(Shade::Black)),
            Bounce::Scattered => {
                let next = Transport {
                    remaining: (self.remaining - 1) as usize,
                    bounces: (self.bounces + 1) as usize,
                };
                (next, if next.remaining == 0 { Step::Done(Shade::Black) } else { Step::Trace })
            },
        }
    }

    /// Where the machine ends when the traced rays have the outcomes `path`
    /// in order; `None` when it still asks for a ray after the last one.
    pub open spec fn run(self, path: Seq<Bounce>) -> Option<Radiance>
        decreases path.len(),
    {
        if path.len() == 0 {
            None
        } else {
            let (next, s) = self.step(path[0]);
            match s {
                Step::Done(shade) => Some(shade@),
                Step::Trace => next.run(path.drop_first()),
            }
        }
    }

    /// Starts shading a camera ray that may bounce up to `max_depth` times
    /// in all; a depth of zero resolves at once to black.
    pub fn start(max_depth: usize) -> (r: (Transport, Step))
        ensures
            r == Transport::initial(max_depth as nat),
            r.0.wf(),
    {
        let t = Transport { remaining: max_depth, bounces: 0 };
        if max_depth == 0 {
            (t, Step::Done(Shade::Black))
        } else {
            (t, Step::Trace)
        }
    }

    /// Takes the outcome of the ray that was just traced and says what comes
    /// next: a miss ends the path at the sky, an absorption ends it black,
    /// and a scatter either asks for the scattered ray or, with no depth
    /// left, ends the path black.
    pub fn advance(&mut self, e: Bounce) -> (s: Step)
        requires
            old(self).wf(),
            old(self).remaining > 0,
        ensures
            (*final(self), s) == old(self).step(e),
            final(self).wf(),
    {
        match e {
            Bounce::Miss => Step::Done(Shade::Sky { bounces: self.bounces }),
            Bounce::Absorbed => Step::Done(Shade::Black),
            Bounce::Scattered => {
                self.remaining = self.remaining - 1;
                self.bounces = self.bounces + 1;
                if self.remaining == 0 {
                    Step::Done(Shade::Black)
                } else {
                    Step::Trace
                }
            },
        }
    }
}

/// Driving the machine from a state with `remaining` rays left and `bounces`
/// scatters behind it gives the recursive ray colour of the rest of the
/// path, with those scatters put in front.
pub proof fn lemma_run_from(t: Transport, path: Seq<Bounce>)
    requires
        t.wf(),
        t.remaining > 0,
    ensures
        t.run(path) == after_bounces(ray_colour(t.remaining as nat, path), t.bounces as nat),
    decreases path.len(),
{
    if path.len() > 0 {
        let (next, s) = t.step(path[0]);
        if path[0] == Bounce::Scattered && next.remaining > 0 {
            lemma_run_from(next, path.drop_first());
        }
    }
}

/// The step-by-step machine shades a ray exactly as the recursive
/// definition does: started for a maximum depth and fed the outcomes of the
/// rays of a path, it ends where `ray_colour` does.
pub proof fn lemma_machine_is_recursion(max_depth: usize, path: Seq<Bounce>)
    ensures
        ({
            let (t, s) = Transport::initial(max_depth as nat);
            match s {
                Step::Done(shade) => ray_colour(max_depth as nat, path) == Some(shade@),
                Step::Trace => t.run(path) == ray_colour(max_depth as nat, path),
            }
        }),
{
    if max_depth > 0 {
        lemma_run_from(Transport::initial(max_depth as nat).0, path);
    }
}

/// A path whose first `depth` rays all hit a surface carries no light: the
/// recursion is cut, or the path absorbed, before any ray reaches the sky.
pub proof fn lemma_all_hits_are_black(depth: nat, path: Seq<Bounce>)
    requires
        path.len() >= depth,
        forall|i: int| 0 <= i < depth ==> path[i] != Bounce::Miss,
    ensures
        ray_colour(depth, path) == Some(Radiance::Dark),
    decreases depth,
{
    if depth > 0 && path[0] == Bounce::Scattered {
        let rest = path.drop_first();
        assert forall|i: int| 0 <= i < depth - 1 implies rest[i] != Bounce::Miss by {
            assert(rest[i] == path[i + 1]);
        }
        lemma_all_hits_are_black((depth - 1) as nat, rest);
    }
}

/// A path that scatters `k` times and then misses, with `k` below the depth,
/// sees the sky through exactly those `k` attenuations.
pub proof fn lemma_sky_after_scatters(depth: nat, k: nat, path: Seq<Bounce>)
    requires
        k < depth,
        k < path.len(),
        forall|i: int| 0 <= i < k ==> path[i] == Bounce::Scattered,
        path[k as int] == Bounce::Miss,
    ensures
        ray_colour(depth, path) == Some(Radiance::SkyAfter(k)),
    decreases k,
{
    if k > 0 {
        let rest = path.drop_first();
        assert forall|i: int| 0 <= i < k - 1 implies rest[i] == Bounce::Scattered by {
            assert(rest[i] == path[i + 1]);
        }
        assert(rest[k - 1] == path[k as int]);
        lemma_sky_after_scatters((depth - 1) as nat, (k - 1) as nat, rest);
    }
}

} // verus!
