use edgemouse::geometry::{
    decode_edge, edge_name, encode_edge, local_layout_edge, parse_edge, parse_layout_edge, Edge,
};

#[test]
fn parses_all_edge_names_case_insensitively() {
    assert_eq!(parse_edge("LEFT").unwrap(), Edge::Left);
    assert_eq!(parse_edge("right").unwrap(), Edge::Right);
    assert_eq!(parse_edge("Top").unwrap(), Edge::Top);
    assert_eq!(parse_edge("bottom").unwrap(), Edge::Bottom);
    assert!(parse_edge("diagonal").is_err());
}

#[test]
fn parses_the_four_layout_edges() {
    assert_eq!(parse_layout_edge("left"), Ok(Edge::Left));
    assert_eq!(parse_layout_edge("right"), Ok(Edge::Right));
    assert_eq!(parse_layout_edge("top"), Ok(Edge::Top));
    assert_eq!(parse_layout_edge("bottom"), Ok(Edge::Bottom));
    assert!(parse_layout_edge("diagonal").is_err());
}

#[test]
fn canonical_layout_is_converted_for_each_computer() {
    assert_eq!(local_layout_edge(Edge::Right, false), Edge::Right);
    assert_eq!(local_layout_edge(Edge::Right, true), Edge::Left);
    assert_eq!(local_layout_edge(Edge::Top, false), Edge::Top);
    assert_eq!(local_layout_edge(Edge::Top, true), Edge::Bottom);
}

#[test]
fn edge_names_and_codes_round_trip() {
    for edge in [Edge::Left, Edge::Right, Edge::Top, Edge::Bottom] {
        assert_eq!(parse_edge(edge_name(edge)).unwrap(), edge);
        assert_eq!(decode_edge(encode_edge(edge)), Some(edge));
        assert_eq!(edge.opposite().opposite(), edge);
        assert_eq!(edge.opposite().is_vertical(), edge.is_vertical());
    }
    assert_eq!(decode_edge(4), None);
    assert_eq!(
        parse_edge("Up").unwrap_err(),
        "layout.peer_on must be left, right, top, or bottom; got `Up`"
    );
    assert!(parse_layout_edge("LEFT").is_err());
}
