use vstd::prelude::*;

verus! {

/// What one query of the scene found for the current ray of a light path.
#[derive(Clone, Copy, Debug, PartialEq, Eq, Structural)]
pub enum Bounce {
    /// The ray hit no surface.
    Miss,
    /// The ray hit a surface whose material absorbed it.
    Absorbed,
    /// The ray hit a surface whose material scattered it into a new ray.
    Scattered,
}

/// How a light path ends: with no light, or with the background seen
/// through the attenuations gathered on the way.
#[derive(Clone, Copy, Debug, PartialEq, Eq, Structural)]
pub enum Terminal {
    Black,
    Background,
}

/// The end of a path traced with recursion budget `depth` that met
/// `bounces` in order, or `None` while it still has to query the scene.
/// A budget of zero ends the path black before the scene is queried.
pub open spec fn path_end(depth: nat, bounces: Seq<Bounce>) -> Option<Terminal>
    decreases bounces.len(),
{
    if depth == 0 {
        Some(Terminal::Black)
    } else if bounces.len() == 0 {
        None
    } else {
        match bounces[0] {
            Bounce::Miss => Some(Terminal::Background),
            Bounce::Absorbed => Some(Terminal::Black),
            Bounce::Scattered => path_end((depth - 1) as nat, bounces.drop_first()),
        }
    }
}

/// The end that one bounce gives a path with `left` recursion steps left.
spec fn step_end(left: nat, b: Bounce) -> Option<Terminal> {
    if left == 0 {
        Some(Terminal::Black)
    } else {
        match b {
            Bounce::Miss => Some(Terminal::Background),
            Bounce::Absorbed => Some(Terminal::Black),
            Bounce::Scattered => if left == 1 {
                Some(Terminal::Black)
            } else {
                None
            },
        }
    }
}

/// While a path is open, every bounce so far scattered, the budget is not
/// used up, and the next bounce decides as `step_end` says.
proof fn lemma_open_path(depth: nat, bounces: Seq<Bounce>, b: Bounce)
    requires
        path_end(depth, bounces) is None,
    ensures
        bounces.len() < depth,
        forall|i: int| 0 <= i < bounces.len() ==> bounces[i] == Bounce::Scattered,
        path_end(depth, bounces.push(b)) == step_end((depth - bounces.len()) as nat, b),
    decreases bounces.len(),
{
    if bounces.len() > 0 {
        let rest = bounces.drop_first();
        lemma_open_path((depth - 1) as nat, rest, b);
        assert(bounces.push(b).drop_first() =~= rest.push(b));
        assert forall|i: int| 0 <= i < bounces.len() implies bounces[i] == Bounce::Scattered by {
            if i > 0 {
                assert(bounces[i] == rest[i - 1]);
            }
        }
    } else {
        let one = bounces.push(b);
        assert(one[0] == b);
        assert(one.drop_first() =~= Seq::<Bounce>::empty());
        assert(path_end((depth - 1) as nat, Seq::<Bounce>::empty()) == if depth == 1 {
            Some(Terminal::Black)
        } else {
            None
        });
    }
}

/// A path with no recursion budget ends black, whatever the scene holds.
pub proof fn lemma_no_budget_is_black(bounces: Seq<Bounce>)
    ensures
        path_end(0, bounces) == Some(Terminal::Black),
{
}

/// A path never queries the scene more often than its recursion budget.
pub proof fn lemma_path_ends_within_budget(depth: nat, bounces: Seq<Bounce>)
    requires
        bounces.len() >= depth,
    ensures
        path_end(depth, bounces) is Some,
    decreases bounces.len(),
{
    if depth > 0 {
        lemma_path_ends_within_budget((depth - 1) as nat, bounces.drop_first());
    }
}

/// The state of one light path being traced: its recursion budget and the
/// bounces it has met.
pub struct LightPath {
    depth: u32,
    left: u32,
    end: Option<Terminal>,
    bounces: Ghost<Seq<Bounce>>,
}

impl View for LightPath {
    type V = (nat, Seq<Bounce>);

    closed spec fn view(&self) -> (nat, Seq<Bounce>) {
        (self.depth as nat, self.bounces@)
    }
}

impl LightPath {
    /// The remaining budget and the end agree with the bounces met.
    pub closed spec fn wf(&self) -> bool {
        &&& self.end == path_end(self.depth as nat, self.bounces@)
        &&& self.end is None ==> self.left == self.depth - self.bounces@.len()
    }

    /// The end of this path, if it has one yet.
    pub open spec fn spec_end(&self) -> Option<Terminal> {
        path_end(self@.0, self@.1)
    }

    /// A path about to be traced with recursion budget `max_depth`.
    pub fn new(max_depth: u32) -> (r: LightPath)
        ensures
            r.wf(),
            r@ == (max_depth as nat, Seq::<Bounce>::empty()),
    {
        let end = if max_depth == 0 {
            Some(Terminal::Black)
        } else {
            None
        };
        LightPath { depth: max_depth, left: max_depth, end, bounces: Ghost(Seq::empty()) }
    }

    /// Whether the scene must be queried for the path's current ray.
    pub fn needs_probe(&self) -> (r: bool)
        requires
            self.wf(),
        ensures
            r == (self.spec_end() is None),
    {
        self.end.is_none()
    }

    /// Records what the query for the current ray found.
    pub fn record(&mut self, b: Bounce)
        requires
            old(self).wf(),
            old(self).spec_end() is None,
        ensures
            final(self).wf(),
            final(self)@ == (old(self)@.0, old(self)@.1.push(b)),
    {
        proof {
            lemma_open_path(self.depth as nat, self.bounces@, b);
        }
        let end = match b {
            Bounce::Miss => Some(Terminal::Background),
            Bounce::Absorbed => Some(Terminal::Black),
            Bounce::Scattered => if self.left == 1 {
                Some(Terminal::Black)
            } else {
                None
            },
        };
        self.end = end;
        self.left = self.left - 1;
        self.bounces = Ghost(self.bounces@.push(b));
    }

    /// How the finished path ends.
    pub fn terminal(&self) -> (r: Terminal)
        requires
            self.wf(),
            self.spec_end() is Some,
        ensures
            self.spec_end() == Some(r),
    {
        match self.end {
            Some(t) => t,
            None => Terminal::Black,
        }
    }
}

} // verus!
