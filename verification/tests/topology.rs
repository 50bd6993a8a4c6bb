use edgemouse::geometry::Edge;
use edgemouse::topology::{Portal, PortalTable, ScreenId, TopologyError};

const SCREENS: [ScreenId; 3] = [ScreenId(1), ScreenId(2), ScreenId(3)];

#[test]
fn a_bidirectional_link_installs_both_portals() {
    let mut table = PortalTable::new();
    table
        .connect_bidirectional(&SCREENS, ScreenId(1), Edge::Right, ScreenId(2))
        .unwrap();
    assert_eq!(
        table.portal(ScreenId(1), Edge::Right),
        Some(Portal {
            from: ScreenId(1),
            from_edge: Edge::Right,
            to: ScreenId(2),
            to_edge: Edge::Left,
        })
    );
    assert_eq!(
        table.portal(ScreenId(2), Edge::Left),
        Some(Portal {
            from: ScreenId(2),
            from_edge: Edge::Left,
            to: ScreenId(1),
            to_edge: Edge::Right,
        })
    );
    assert_eq!(table.portal(ScreenId(1), Edge::Left), None);
}

#[test]
fn links_are_refused_in_the_original_order() {
    let mut table = PortalTable::new();
    assert_eq!(
        table.connect_bidirectional(&SCREENS, ScreenId(1), Edge::Top, ScreenId(1)),
        Err(TopologyError::SelfConnection(ScreenId(1)))
    );
    assert_eq!(
        table.connect_bidirectional(&SCREENS, ScreenId(9), Edge::Top, ScreenId(8)),
        Err(TopologyError::MissingScreen(ScreenId(9)))
    );
    assert_eq!(
        table.connect_bidirectional(&SCREENS, ScreenId(1), Edge::Top, ScreenId(8)),
        Err(TopologyError::MissingScreen(ScreenId(8)))
    );
    table
        .connect_bidirectional(&SCREENS, ScreenId(1), Edge::Top, ScreenId(2))
        .unwrap();
    assert_eq!(
        table.connect_bidirectional(&SCREENS, ScreenId(1), Edge::Top, ScreenId(3)),
        Err(TopologyError::OccupiedEdge(ScreenId(1), Edge::Top))
    );
    assert_eq!(
        table.connect_bidirectional(&SCREENS, ScreenId(3), Edge::Top, ScreenId(2)),
        Err(TopologyError::OccupiedEdge(ScreenId(2), Edge::Bottom))
    );
    assert_eq!(table.portal(ScreenId(3), Edge::Top), None);
}
