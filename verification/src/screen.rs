//! Display geometry: screen descriptors, the pointer position and the lookup
//! of the screen that a pointer position belongs to.

use vstd::prelude::*;

verus! {

/// A position in the coordinate space shared by all screens.
#[derive(Clone, Copy, Debug, PartialEq, Eq, Structural)]
pub struct PointerState {
    pub x: i32,
    pub y: i32,
}

/// The bounding geometry of one display surface: its origin and its size.
#[derive(Clone, Copy, Debug, PartialEq, Eq, Structural)]
pub struct ScreenDescriptor {
    pub x: i32,
    pub y: i32,
    pub width: u32,
    pub height: u32,
}

/// A click that no screen contains. `ScreenDirectory::locate` reports it;
/// `ScreenDirectory::resolve_screen` answers it with the fallback screen.
#[derive(Clone, Copy, Debug, PartialEq, Eq, Structural)]
pub struct NoScreenMatched {
    pub pointer: PointerState,
}

impl ScreenDescriptor {
    /// The bounding rectangle with its four edges: a point on an edge is
    /// contained.
    pub open spec fn spec_contains(&self, p: PointerState) -> bool {
        &&& self.x <= p.x <= self.x + self.width
        &&& self.y <= p.y <= self.y + self.height
    }

    /// The bounding rectangle without its edges.
    pub open spec fn strictly_contains(&self, p: PointerState) -> bool {
        &&& self.x < p.x < self.x + self.width
        &&& self.y < p.y < self.y + self.height
    }

    /// Whether `p` lies within the bounding rectangle, edges included.
    #[verifier::when_used_as_spec(spec_contains)]
    pub fn contains(&self, p: PointerState) -> (inside: bool)
        ensures
            inside == self.spec_contains(p),
    {
        let px: i64 = p.x as i64;
        let py: i64 = p.y as i64;
        let left: i64 = self.x as i64;
        let top: i64 = self.y as i64;
        let right: i64 = left + self.width as i64;
        let bottom: i64 = top + self.height as i64;
        left <= px && px <= right && top <= py && py <= bottom
    }
}

/// `i` is the first index at which a screen contains `p`. Screens are tried
/// in the order in which they were enumerated.
pub open spec fn is_first_match(screens: Seq<ScreenDescriptor>, p: PointerState, i: int) -> bool {
    &&& 0 <= i < screens.len()
    &&& screens[i].spec_contains(p)
    &&& forall|j: int| 0 <= j < i ==> !(#[trigger] screens[j]).spec_contains(p)
}

/// The index of the first screen that contains `p`, if any does.
pub open spec fn first_match(screens: Seq<ScreenDescriptor>, p: PointerState) -> Option<int> {
    if exists|i: int| is_first_match(screens, p, i) {
        Some(choose|i: int| is_first_match(screens, p, i))
    } else {
        None
    }
}

/// The index that a click at `p` resolves to: the first screen that contains
/// `p`, and the first enumerated screen where none does.
pub open spec fn resolved_index(screens: Seq<ScreenDescriptor>, p: PointerState) -> int {
    match first_match(screens, p) {
        Some(i) => i,
        None => 0,
    }
}

/// There is at most one first match, so `first_match` names it.
pub proof fn lemma_first_match_is(screens: Seq<ScreenDescriptor>, p: PointerState, i: int)
    requires
        is_first_match(screens, p, i),
    ensures
        first_match(screens, p) == Some(i),
        resolved_index(screens, p) == i,
{
    let other = choose|c: int| is_first_match(screens, p, c);
    assert(!(other < i) && !(i < other));
}

/// Where no screen contains `p`, there is no first match.
pub proof fn lemma_no_match(screens: Seq<ScreenDescriptor>, p: PointerState)
    requires
        forall|j: int| 0 <= j < screens.len() ==> !(#[trigger] screens[j]).spec_contains(p),
    ensures
        first_match(screens, p) is None,
        resolved_index(screens, p) == 0,
{
}

/// Where some screen contains `p`, there is a first one that does, and it is
/// not enumerated after that screen.
pub proof fn lemma_first_match_exists(screens: Seq<ScreenDescriptor>, p: PointerState, i: int)
    requires
        0 <= i < screens.len(),
        screens[i].spec_contains(p),
    ensures
        is_first_match(screens, p, resolved_index(screens, p)),
        resolved_index(screens, p) <= i,
    decreases i,
{
    if forall|k: int| 0 <= k < i ==> !(#[trigger] screens[k]).spec_contains(p) {
        lemma_first_match_is(screens, p, i);
    } else {
        let k = choose|k: int| 0 <= k < i && (#[trigger] screens[k]).spec_contains(p);
        lemma_first_match_exists(screens, p, k);
    }
}

/// The display surfaces of a session, in the order in which they were
/// enumerated. A directory always holds at least one screen.
pub struct ScreenDirectory {
    screens: Vec<ScreenDescriptor>,
}

impl View for ScreenDirectory {
    type V = Seq<ScreenDescriptor>;

    closed spec fn view(&self) -> Seq<ScreenDescriptor> {
        self.screens@
    }
}

impl ScreenDirectory {
    /// A directory is never empty.
    pub open spec fn wf(&self) -> bool {
        self@.len() > 0
    }

    /// Builds the directory from the enumerated screens. There is none for an
    /// empty enumeration.
    pub fn new(screens: Vec<ScreenDescriptor>) -> (directory: Option<ScreenDirectory>)
        ensures
            directory is Some <==> screens@.len() > 0,
            directory matches Some(d) ==> d.wf() && d@ == screens@,
    {
        if screens.len() == 0 {
            None
        } else {
            Some(ScreenDirectory { screens })
        }
    }

    /// The number of screens, at least one.
    pub fn len(&self) -> (n: usize)
        requires
            self.wf(),
        ensures
            n == self@.len(),
            n > 0,
    {
        self.screens.len()
    }

    /// The screen at `index`, where there is one.
    pub fn get(&self, index: usize) -> (screen: Option<ScreenDescriptor>)
        ensures
            screen == if index < self@.len() {
                Some(self@[index as int])
            } else {
                None
            },
    {
        if index < self.screens.len() {
            Some(self.screens[index])
        } else {
            None
        }
    }

    /// The index of the first screen that contains `p`; the error where no
    /// screen does.
    pub fn locate(&self, p: PointerState) -> (found: Result<usize, NoScreenMatched>)
        ensures
            match found {
                Ok(i) => is_first_match(self@, p, i as int) && first_match(self@, p) == Some(
                    i as int,
                ),
                Err(e) => first_match(self@, p) is None && e.pointer == p && forall|j: int|
                    0 <= j < self@.len() ==> !(#[trigger] self@[j]).spec_contains(p),
            },
    {
        let mut i: usize = 0;
        while i < self.screens.len()
            invariant
                i <= self.screens@.len(),
                forall|j: int| 0 <= j < i ==> !(#[trigger] self.screens@[j]).spec_contains(p),
            decreases self.screens@.len() - i,
        {
            if self.screens[i].contains(p) {
                proof {
                    lemma_first_match_is(self@, p, i as int);
                }
                return Ok(i);
            }
            i += 1;
        }
        proof {
            lemma_no_match(self@, p);
        }
        Err(NoScreenMatched { pointer: p })
    }

    /// The index of the screen that a click at `p` belongs to: the first
    /// enumerated screen that contains `p`. Where no screen contains `p`, the
    /// first enumerated screen stands in.
    pub fn resolve_index(&self, p: PointerState) -> (index: usize)
        requires
            self.wf(),
        ensures
            index == resolved_index(self@, p),
            index < self@.len(),
    {
        match self.locate(p) {
            Ok(i) => i,
            Err(_) => 0,
        }
    }

    /// The screen that a click at `p` belongs to.
    pub fn resolve_screen(&self, p: PointerState) -> (screen: ScreenDescriptor)
        requires
            self.wf(),
        ensures
            screen == self@[resolved_index(self@, p)],
    {
        let index = self.resolve_index(p);
        self.screens[index]
    }
}

/// A position strictly inside a screen resolves to that screen, unless a
/// screen enumerated before it contains the position too, be it on an edge.
/// So a position strictly inside exactly one screen resolves to that screen
/// wherever it lies on no edge of an earlier one.
pub proof fn lemma_resolve_single_screen(screens: Seq<ScreenDescriptor>, p: PointerState, k: int)
    requires
        0 <= k < screens.len(),
        screens[k].strictly_contains(p),
        forall|j: int| 0 <= j < k ==> !(#[trigger] screens[j]).spec_contains(p),
    ensures
        resolved_index(screens, p) == k,
        screens[resolved_index(screens, p)] == screens[k],
{
    lemma_first_match_is(screens, p, k);
}

/// A position inside two screens at once resolves to the one enumerated
/// first, unless a screen enumerated before both contains it too; in every
/// case it resolves to the first of all screens that contain it, and never to
/// the later of the two.
pub proof fn lemma_resolve_overlap_first_wins(
    screens: Seq<ScreenDescriptor>,
    p: PointerState,
    i: int,
    j: int,
)
    requires
        0 <= i < j < screens.len(),
        screens[i].spec_contains(p),
        screens[j].spec_contains(p),
    ensures
        is_first_match(screens, p, resolved_index(screens, p)),
        resolved_index(screens, p) <= i,
        resolved_index(screens, p) != j,
        (forall|k: int| 0 <= k < i ==> !(#[trigger] screens[k]).spec_contains(p))
            ==> resolved_index(screens, p) == i,
{
    lemma_first_match_exists(screens, p, i);
    if forall|k: int| 0 <= k < i ==> !(#[trigger] screens[k]).spec_contains(p) {
        lemma_first_match_is(screens, p, i);
    }
}

/// A position outside every screen resolves to the first enumerated screen.
pub proof fn lemma_resolve_fallback(screens: Seq<ScreenDescriptor>, p: PointerState)
    requires
        screens.len() > 0,
        forall|j: int| 0 <= j < screens.len() ==> !(#[trigger] screens[j]).spec_contains(p),
    ensures
        resolved_index(screens, p) == 0,
        screens[resolved_index(screens, p)] == screens[0],
{
    lemma_no_match(screens, p);
}

} // verus!
