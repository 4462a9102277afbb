use vstd::prelude::*;
use crate::cells::Cells;
use crate::world::{World, WorldView};

verus! {

/// What a sequence of generations is: the world it has reached and the sets
/// of live locations it has handed out.
pub struct GenerationsView {
    pub current: WorldView,
    pub seen: Set<Set<(isize, isize)>>,
}

impl GenerationsView {
    /// Whether the sequence has ended: the generation after the current one
    /// has been handed out before.
    pub open spec fn halted(self) -> bool {
        self.seen.contains(self.current.next().live)
    }

    /// The sequence after it has handed out its next generation.
    pub open spec fn advanced(self) -> GenerationsView {
        GenerationsView {
            current: self.current.next(),
            seen: self.seen.insert(self.current.next().live),
        }
    }
}

/// The generations that follow a world, up to the first one whose live cells
/// have been seen before.
#[derive(Debug)]
pub struct Generations {
    current: World,
    previous: Vec<Cells>,
}

impl View for Generations {
    type V = GenerationsView;

    closed spec fn view(&self) -> GenerationsView {
        GenerationsView {
            current: self.current@,
            seen: Set::new(
                |cells: Set<(isize, isize)>|
                    exists|i: int| 0 <= i < self.previous@.len() && (#[trigger] self.previous@[i])@ == cells,
            ),
        }
    }
}

impl Generations {
    /// Whether the sequence is well formed: it keeps no set of live cells
    /// twice.
    pub closed spec fn distinct(&self) -> bool {
        forall|i: int, j: int|
            0 <= i < j < self.previous@.len() ==> (#[trigger] self.previous@[i])@ != (
            #[trigger] self.previous@[j])@
    }

    /// The sequence that starts after `world`. The live cells of `world`
    /// itself do not count as seen.
    pub fn new(world: World) -> (generations: Self)
        ensures
            generations@ == (GenerationsView {
                current: world@,
                seen: Set::<Set<(isize, isize)>>::empty(),
            }),
            generations.distinct(),
    {
        let generations = Generations { current: world, previous: Vec::new() };
        assert(generations@.seen =~= Set::<Set<(isize, isize)>>::empty());
        generations
    }

    pub fn current(&self) -> (world: &World)
        ensures
            world@ == self@.current,
    {
        &self.current
    }

    /// Whether `cells` has been handed out before.
    fn has_seen(&self, cells: &Cells) -> (seen: bool)
        ensures
            seen == self@.seen.contains(cells@),
    {
        let mut i: usize = 0;
        while i < self.previous.len()
            invariant
                i <= self.previous.len(),
                forall|j: int| 0 <= j < i ==> (#[trigger] self.previous@[j])@ != cells@,
            decreases self.previous.len() - i,
        {
            if self.previous[i] == *cells {
                return true;
            }
            i += 1;
        }
        false
    }

    /// Hands out the generation after the current one and makes it the
    /// current one, unless its live cells have been seen before: then the
    /// sequence has ended, nothing changes, and this call and every later
    /// one return `None`.
    pub fn next(&mut self) -> (world: Option<World>)
        ensures
            old(self).distinct() ==> final(self).distinct(),
            old(self)@.halted() ==> world is None && final(self)@ == old(self)@,
            !old(self)@.halted() ==> final(self)@ == old(self)@.advanced(),
            !old(self)@.halted() ==> (world matches Some(w) && w@ == old(self)@.current.next()),
            world is Some ==> final(self)@.current.confined(),
    {
        let mut world = self.current.clone();
        world.next_generation();
        let cells = world.live_cells().clone();
        if self.has_seen(&cells) {
            None
        } else {
            let ghost before = self@;
            self.previous.push(cells);
            self.current = world.clone();
            assert(self@.seen =~= before.seen.insert(cells@)) by {
                assert forall|s: Set<(isize, isize)>| before.seen.insert(cells@).contains(
                    s,
                ) implies self@.seen.contains(s) by {
                    if s == cells@ {
                        assert(self.previous@[self.previous@.len() - 1]@ == s);
                    } else {
                        let i = choose|i: int|
                            0 <= i < old(self).previous@.len() && (
                            #[trigger] old(self).previous@[i])@ == s;
                        assert(self.previous@[i]@ == s);
                    }
                }
            }
            Some(world)
        }
    }
}

} // verus!
