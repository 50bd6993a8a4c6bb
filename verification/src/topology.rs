//! Identities of computers and screens, and the errors of a screen layout.
use crate::geometry::Edge;
use vstd::prelude::*;

verus! {

/// The identity of one computer, derived from its certificate.
#[derive(Debug, Clone, Copy, PartialEq, Eq, PartialOrd, Ord, Hash, Structural)]
pub struct NodeId(pub u128);

/// The identity of one screen (one operating-system desktop).
#[derive(Debug, Clone, Copy, PartialEq, Eq, PartialOrd, Ord, Hash, Structural)]
pub struct ScreenId(pub u64);

/// A directed link from one side of a screen to a side of another screen.
#[derive(Debug, Clone, Copy, PartialEq, Eq, Structural)]
pub struct Portal {
    pub from: ScreenId,
    pub from_edge: Edge,
    pub to: ScreenId,
    pub to_edge: Edge,
}

/// The reverse direction of a portal, as installed by a bidirectional link.
pub open spec fn spec_reverse_portal(portal: Portal) -> Portal {
    Portal { from: portal.to, from_edge: portal.to_edge, to: portal.from, to_edge: portal.from_edge }
}

impl Portal {
    /// The portal leading back across the same border.
    pub fn reversed(self) -> (back: Portal)
        ensures
            back == spec_reverse_portal(self),
    {
        Portal { from: self.to, from_edge: self.to_edge, to: self.from, to_edge: self.from_edge }
    }
}

/// Reversing a portal twice gives the portal back.
pub proof fn law_reverse_portal_involution(portal: Portal)
    ensures
        spec_reverse_portal(spec_reverse_portal(portal)) == portal,
{
}

#[derive(Debug, Clone, Copy, PartialEq, Eq, Structural)]
pub enum TopologyError {
    MissingScreen(ScreenId),
    DuplicateScreen(ScreenId),
    SelfConnection(ScreenId),
    OccupiedEdge(ScreenId, Edge),
    InvalidScaleFactor,
    InvalidDisplayGeometry,
    PointOutsideScreen(ScreenId),
    NonFiniteMovement,
}


/// The portals of a layout, at most one on each side of each screen.
#[derive(Debug, Clone)]
pub struct PortalTable {
    portals: Vec<Portal>,
}

/// The portal on side `edge` of `screen` among `portals`, if any.
pub open spec fn portal_at(portals: Seq<Portal>, screen: ScreenId, edge: Edge) -> Option<Portal> {
    if exists|i: int| 0 <= i < portals.len() && portals[i].from == screen && portals[i].from_edge == edge {
        let i = choose|i: int| 0 <= i < portals.len() && portals[i].from == screen && portals[i].from_edge == edge;
        Some(portals[i])
    } else {
        None
    }
}

impl PortalTable {
    pub closed spec fn portals(&self) -> Seq<Portal> {
        self.portals@
    }

    /// No side of a screen holds two portals, and every portal's reverse is
    /// in the table too.
    pub open spec fn wf(&self) -> bool {
        &&& forall|i: int, j: int|
            0 <= i < j < self.portals().len() ==> !(#[trigger] self.portals()[i].from
                == #[trigger] self.portals()[j].from && self.portals()[i].from_edge
                == self.portals()[j].from_edge)
        &&& forall|i: int|
            0 <= i < self.portals().len() ==> self.portals().contains(
                spec_reverse_portal(#[trigger] self.portals()[i]),
            )
    }

    pub fn new() -> (table: PortalTable)
        ensures
            table.wf(),
            table.portals().len() == 0,
    {
        PortalTable { portals: Vec::new() }
    }

    /// The portal on side `edge` of `screen`, if any.
    pub fn portal(&self, screen: ScreenId, edge: Edge) -> (found: Option<Portal>)
        requires
            self.wf(),
        ensures
            found == portal_at(self.portals(), screen, edge),
    {
        let mut i: usize = 0;
        while i < self.portals.len()
            invariant
                self.wf(),
                i <= self.portals@.len(),
                forall|k: int| 0 <= k < i ==> !(self.portals@[k].from == screen
                    && self.portals@[k].from_edge == edge),
            decreases self.portals@.len() - i,
        {
            let p = self.portals[i];
            if p.from == screen && p.from_edge == edge {
                proof {
                    let j = choose|j: int| 0 <= j < self.portals@.len() && self.portals@[j].from
                        == screen && self.portals@[j].from_edge == edge;
                    if j != i as int {
                        if j < i {
                        } else {
                            assert(!(self.portals()[i as int].from == self.portals()[j].from
                                && self.portals()[i as int].from_edge == self.portals()[j].from_edge));
                        }
                    }
                }
                return Some(p);
            }
            i = i + 1;
        }
        None
    }

    /// Links side `from_edge` of `from` with the opposite side of `to`, in
    /// both directions. Both screens must be among `screens`, be different,
    /// and have those sides free.
    pub fn connect_bidirectional(
        &mut self,
        screens: &[ScreenId],
        from: ScreenId,
        from_edge: Edge,
        to: ScreenId,
    ) -> (connected: Result<(), TopologyError>)
        requires
            old(self).wf(),
        ensures
            final(self).wf(),
            from == to ==> connected == Err::<(), TopologyError>(TopologyError::SelfConnection(from))
                && final(self).portals() == old(self).portals(),
            from != to && !screens@.contains(from) ==> connected == Err::<(), TopologyError>(
                TopologyError::MissingScreen(from),
            ) && final(self).portals() == old(self).portals(),
            from != to && screens@.contains(from) && !screens@.contains(to) ==> connected == Err::<
                (),
                TopologyError,
            >(TopologyError::MissingScreen(to)) && final(self).portals() == old(self).portals(),
            from != to && screens@.contains(from) && screens@.contains(to) ==> {
                let forward = Portal { from, from_edge, to, to_edge: from_edge.spec_opposite() };
                if portal_at(old(self).portals(), from, from_edge) is Some {
                    &&& connected == Err::<(), TopologyError>(TopologyError::OccupiedEdge(from, from_edge))
                    &&& final(self).portals() == old(self).portals()
                } else if portal_at(old(self).portals(), to, from_edge.spec_opposite()) is Some {
                    &&& connected == Err::<(), TopologyError>(
                        TopologyError::OccupiedEdge(to, from_edge.spec_opposite()),
                    )
                    &&& final(self).portals() == old(self).portals()
                } else {
                    &&& connected is Ok
                    &&& final(self).portals() == old(self).portals().push(forward).push(
                        spec_reverse_portal(forward),
                    )
                }
            },
    {
        if from == to {
            return Err(TopologyError::SelfConnection(from));
        }
        if !contains_screen(screens, from) {
            return Err(TopologyError::MissingScreen(from));
        }
        if !contains_screen(screens, to) {
            return Err(TopologyError::MissingScreen(to));
        }
        let to_edge = from_edge.opposite();
        if self.portal(from, from_edge).is_some() {
            return Err(TopologyError::OccupiedEdge(from, from_edge));
        }
        if self.portal(to, to_edge).is_some() {
            return Err(TopologyError::OccupiedEdge(to, to_edge));
        }
        let forward = Portal { from, from_edge, to, to_edge };
        let ghost before = self.portals@;
        self.portals.push(forward);
        self.portals.push(forward.reversed());
        proof {
            let after = self.portals@;
            let n = before.len() as int;
            assert(after[n] == forward);
            assert(after[n + 1] == spec_reverse_portal(forward));
            assert forall|i: int| 0 <= i < after.len() implies after.contains(
                spec_reverse_portal(#[trigger] after[i]),
            ) by {
                if i < n {
                    assert(before.contains(spec_reverse_portal(before[i])));
                    let k = choose|k: int| 0 <= k < before.len() && before[k] == spec_reverse_portal(before[i]);
                    assert(after[k] == before[k]);
                } else if i == n {
                    assert(after[n + 1] == spec_reverse_portal(after[i]));
                } else {
                    assert(spec_reverse_portal(after[i]) == forward);
                }
            }
            assert forall|i: int, j: int| 0 <= i < j < after.len() implies !(#[trigger] after[i].from
                == #[trigger] after[j].from && after[i].from_edge == after[j].from_edge) by {
                if j == n {
                    if after[i].from == from && after[i].from_edge == from_edge {
                        assert(before[i].from == from && before[i].from_edge == from_edge);
                    }
                } else if j == n + 1 && i < n {
                    if after[i].from == to && after[i].from_edge == to_edge {
                        assert(before[i].from == to && before[i].from_edge == to_edge);
                    }
                }
            }
        }
        Ok(())
    }
}

/// Whether `screen` is among `screens`.
fn contains_screen(screens: &[ScreenId], screen: ScreenId) -> (found: bool)
    ensures
        found == screens@.contains(screen),
{
    let mut i: usize = 0;
    while i < screens.len()
        invariant
            i <= screens@.len(),
            forall|k: int| 0 <= k < i ==> screens@[k] != screen,
        decreases screens@.len() - i,
    {
        if screens[i] == screen {
            assert(screens@[i as int] == screen);
            return true;
        }
        i = i + 1;
    }
    false
}

/// A linked layout is symmetric: every portal leads back through its
/// reverse, so a pointer that crosses can always return the way it came.
pub proof fn law_portals_lead_back(table: PortalTable, screen: ScreenId, edge: Edge)
    requires
        table.wf(),
        portal_at(table.portals(), screen, edge) is Some,
    ensures
        ({
            let p = portal_at(table.portals(), screen, edge)->Some_0;
            portal_at(table.portals(), p.to, p.to_edge) == Some(spec_reverse_portal(p))
        }),
{
    let p = portal_at(table.portals(), screen, edge)->Some_0;
    let ps = table.portals();
    let i = choose|i: int| 0 <= i < ps.len() && ps[i].from == screen && ps[i].from_edge == edge;
    assert(ps.contains(spec_reverse_portal(ps[i])));
    let k = choose|k: int| 0 <= k < ps.len() && ps[k] == spec_reverse_portal(ps[i]);
    let j = choose|j: int| 0 <= j < ps.len() && ps[j].from == p.to && ps[j].from_edge == p.to_edge;
    if j != k {
        if j < k {
            assert(!(ps[j].from == ps[k].from && ps[j].from_edge == ps[k].from_edge));
        } else {
            assert(!(ps[k].from == ps[j].from && ps[k].from_edge == ps[j].from_edge));
        }
    }
}

} // verus!
