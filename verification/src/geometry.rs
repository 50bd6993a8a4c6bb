//! Screen sides and their textual and wire encodings.
use vstd::prelude::*;

verus! {

/// One side of a rectangular screen.
#[derive(Debug, Clone, Copy, PartialEq, Eq, PartialOrd, Ord, Hash, Structural)]
pub enum Edge {
    Left,
    Right,
    Top,
    Bottom,
}

/// Why a rectangle was refused.
#[derive(Debug, Clone, Copy, PartialEq, Eq, Structural)]
pub enum GeometryError {
    NonFinite,
    NonPositiveSize,
}

impl GeometryError {
    /// The human-readable explanation of the error.
    pub fn message(&self) -> (text: &'static str)
        ensures
            text@ == match *self {
                GeometryError::NonFinite => "geometry values must be finite"@,
                GeometryError::NonPositiveSize => "rectangle size must be positive"@,
            },
    {
        match self {
            GeometryError::NonFinite => "geometry values must be finite",
            GeometryError::NonPositiveSize => "rectangle size must be positive",
        }
    }
}

impl Edge {
    /// The side facing this one across a shared border.
    pub open spec fn spec_opposite(self) -> Edge {
        match self {
            Edge::Left => Edge::Right,
            Edge::Right => Edge::Left,
            Edge::Top => Edge::Bottom,
            Edge::Bottom => Edge::Top,
        }
    }

    /// Whether the side runs vertically (left and right sides).
    pub open spec fn spec_is_vertical(self) -> bool {
        self is Left || self is Right
    }

    #[verifier::when_used_as_spec(spec_opposite)]
    pub fn opposite(self) -> (result: Edge)
        ensures
            result == self.spec_opposite(),
    {
        match self {
            Edge::Left => Edge::Right,
            Edge::Right => Edge::Left,
            Edge::Top => Edge::Bottom,
            Edge::Bottom => Edge::Top,
        }
    }

    #[verifier::when_used_as_spec(spec_is_vertical)]
    pub fn is_vertical(self) -> (result: bool)
        ensures
            result == self.spec_is_vertical(),
    {
        matches!(self, Edge::Left | Edge::Right)
    }
}

/// The wire byte of an edge in control and layout messages.
pub open spec fn edge_code(edge: Edge) -> u8 {
    match edge {
        Edge::Left => 0,
        Edge::Right => 1,
        Edge::Top => 2,
        Edge::Bottom => 3,
    }
}

/// The name of an edge variant as written in diagnostics (`Left`, ...).
pub open spec fn debug_edge_text(edge: Edge) -> Seq<char> {
    match edge {
        Edge::Left => "Left"@,
        Edge::Right => "Right"@,
        Edge::Top => "Top"@,
        Edge::Bottom => "Bottom"@,
    }
}

pub fn debug_edge_name(edge: Edge) -> (name: &'static str)
    ensures
        name@ == debug_edge_text(edge),
{
    match edge {
        Edge::Left => "Left",
        Edge::Right => "Right",
        Edge::Top => "Top",
        Edge::Bottom => "Bottom",
    }
}

/// The lower-case configuration name of an edge.
pub open spec fn edge_text(edge: Edge) -> Seq<char> {
    match edge {
        Edge::Left => seq!['l', 'e', 'f', 't'],
        Edge::Right => seq!['r', 'i', 'g', 'h', 't'],
        Edge::Top => seq!['t', 'o', 'p'],
        Edge::Bottom => seq!['b', 'o', 't', 't', 'o', 'm'],
    }
}

/// ASCII lower-casing of one character; other characters are unchanged.
pub open spec fn ascii_lower(c: char) -> char {
    if 'A' <= c && c <= 'Z' {
        ((c as u32) + 32) as char
    } else {
        c
    }
}

/// ASCII lower-casing of a whole text.
pub open spec fn ascii_lower_text(text: Seq<char>) -> Seq<char> {
    Seq::new(text.len(), |i: int| ascii_lower(text[i]))
}

/// The edge whose name is exactly `text`, if any.
pub open spec fn edge_named(text: Seq<char>) -> Option<Edge> {
    if text == edge_text(Edge::Left) {
        Some(Edge::Left)
    } else if text == edge_text(Edge::Right) {
        Some(Edge::Right)
    } else if text == edge_text(Edge::Top) {
        Some(Edge::Top)
    } else if text == edge_text(Edge::Bottom) {
        Some(Edge::Bottom)
    } else {
        None
    }
}

/// Encodes an edge as its wire byte.
pub fn encode_edge(edge: Edge) -> (code: u8)
    ensures
        code == edge_code(edge),
{
    match edge {
        Edge::Left => 0,
        Edge::Right => 1,
        Edge::Top => 2,
        Edge::Bottom => 3,
    }
}

/// The edge whose wire byte is `value`, if any.
pub open spec fn edge_from_code(value: u8) -> Option<Edge> {
    if value == 0 {
        Some(Edge::Left)
    } else if value == 1 {
        Some(Edge::Right)
    } else if value == 2 {
        Some(Edge::Top)
    } else if value == 3 {
        Some(Edge::Bottom)
    } else {
        None
    }
}

/// Decodes a wire byte; only the four edge codes are accepted.
pub fn decode_edge(value: u8) -> (edge: Option<Edge>)
    ensures
        edge == edge_from_code(value),
        value <= 3 <==> edge is Some,
        edge matches Some(e) ==> edge_code(e) == value,
{
    match value {
        0 => Some(Edge::Left),
        1 => Some(Edge::Right),
        2 => Some(Edge::Top),
        3 => Some(Edge::Bottom),
        _ => None,
    }
}

/// The configuration name of an edge.
pub fn edge_name(edge: Edge) -> (name: &'static str)
    ensures
        name@ == edge_text(edge),
{
    match edge {
        Edge::Left => {
            let name = "left";
            proof {
                reveal_strlit("left");
            }
            name
        },
        Edge::Right => {
            let name = "right";
            proof {
                reveal_strlit("right");
            }
            name
        },
        Edge::Top => {
            let name = "top";
            proof {
                reveal_strlit("top");
            }
            name
        },
        Edge::Bottom => {
            let name = "bottom";
            proof {
                reveal_strlit("bottom");
            }
            name
        },
    }
}

/// Whether `text` equals `expected` character for character.
fn text_equals(text: &Vec<char>, expected: &str) -> (equal: bool)
    ensures
        equal == (text@ == expected@),
{
    let n = expected.unicode_len();
    if text.len() != n {
        return false;
    }
    let mut i: usize = 0;
    while i < n
        invariant
            n == expected@.len(),
            text@.len() == n,
            i <= n,
            forall|j: int| 0 <= j < i ==> text@[j] == expected@[j],
        decreases n - i,
    {
        if text[i] != expected.get_char(i) {
            return false;
        }
        i = i + 1;
    }
    assert(text@ =~= expected@);
    true
}

/// Finds the edge named by `chars` exactly.
fn edge_from_chars(chars: &Vec<char>) -> (edge: Option<Edge>)
    ensures
        edge == edge_named(chars@),
{
    let left = "left";
    let right = "right";
    let top = "top";
    let bottom = "bottom";
    proof {
        reveal_strlit("left");
        reveal_strlit("right");
        reveal_strlit("top");
        reveal_strlit("bottom");
        assert(left@ =~= edge_text(Edge::Left));
        assert(right@ =~= edge_text(Edge::Right));
        assert(top@ =~= edge_text(Edge::Top));
        assert(bottom@ =~= edge_text(Edge::Bottom));
    }
    if text_equals(chars, left) {
        Some(Edge::Left)
    } else if text_equals(chars, right) {
        Some(Edge::Right)
    } else if text_equals(chars, top) {
        Some(Edge::Top)
    } else if text_equals(chars, bottom) {
        Some(Edge::Bottom)
    } else {
        None
    }
}

/// Parses the `layout.peer_on` value, ignoring ASCII case.
pub fn parse_edge(value: &str) -> (result: Result<Edge, String>)
    ensures
        result matches Ok(e) ==> edge_named(ascii_lower_text(value@)) == Some(e),
        result is Err ==> edge_named(ascii_lower_text(value@)) is None,
        result matches Err(m) ==> m@ == peer_on_message(value@),
{
    let chars = crate::text::text_chars(value);
    let mut lowered: Vec<char> = Vec::new();
    let mut i: usize = 0;
    while i < chars.len()
        invariant
            i <= chars@.len(),
            chars@ == value@,
            lowered@ == ascii_lower_text(chars@).subrange(0, i as int),
        decreases chars@.len() - i,
    {
        let c = chars[i];
        let l = if 'A' <= c && c <= 'Z' {
            let code = (c as u32) + 32;
            char_from_scalar(code)
        } else {
            c
        };
        lowered.push(l);
        i = i + 1;
        proof {
            assert(lowered@ =~= ascii_lower_text(chars@).subrange(0, i as int));
        }
    }
    assert(lowered@ =~= ascii_lower_text(value@));
    match edge_from_chars(&lowered) {
        Some(edge) => Ok(edge),
        None => Err(edge_error_message(value)),
    }
}

/// The character with scalar value `code`, for the ASCII range.
fn char_from_scalar(code: u32) -> (c: char)
    requires
        code < 128,
    ensures
        c as u32 == code,
{
    let b = code as u8;
    let c = b as char;
    c
}

/// The refusal of a `layout.peer_on` value that names no edge.
pub open spec fn peer_on_message(value: Seq<char>) -> Seq<char> {
    "layout.peer_on must be left, right, top, or bottom; got `"@ + value + "`"@
}

fn edge_error_message(value: &str) -> (message: String)
    ensures
        message@ == peer_on_message(value@),
{
    crate::text::concat3("layout.peer_on must be left, right, top, or bottom; got `", value, "`")
}

/// Parses a layout direction as written by the desktop UI (exact lower case).
pub fn parse_layout_edge(value: &str) -> (result: Result<Edge, String>)
    ensures
        result matches Ok(e) ==> edge_named(value@) == Some(e),
        result is Err ==> edge_named(value@) is None,
{
    let chars = crate::text::text_chars(value);
    match edge_from_chars(&chars) {
        Some(edge) => Ok(edge),
        None => Err(layout_error_message(value)),
    }
}

fn layout_error_message(value: &str) -> (message: String)
    ensures
        message@ == "不支持的屏幕方向："@ + value@,
{
    crate::text::concat2("不支持的屏幕方向：", value)
}

/// The side of this computer's screen where the peer sits, given the side of
/// the Windows screen where the Mac sits.
pub open spec fn spec_local_layout_edge(windows_to_mac: Edge, local_is_macos: bool) -> Edge {
    if local_is_macos {
        windows_to_mac.spec_opposite()
    } else {
        windows_to_mac
    }
}

pub fn local_layout_edge(windows_to_mac: Edge, local_is_macos: bool) -> (edge: Edge)
    ensures
        edge == spec_local_layout_edge(windows_to_mac, local_is_macos),
{
    if local_is_macos {
        windows_to_mac.opposite()
    } else {
        windows_to_mac
    }
}

/// Crossing a side twice returns to the side one started from.
pub proof fn law_opposite_involution(edge: Edge)
    ensures
        edge.spec_opposite().spec_opposite() == edge,
        edge.spec_opposite() != edge,
        edge.spec_opposite().spec_is_vertical() == edge.spec_is_vertical(),
{
}

/// The wire code of an edge decodes back to the same edge, and distinct edges
/// have distinct codes.
pub proof fn law_edge_code_roundtrip(a: Edge, b: Edge)
    ensures
        edge_code(a) <= 3,
        edge_code(a) == edge_code(b) ==> a == b,
        edge_from_code(edge_code(a)) == Some(a),
{
}

/// Every edge's configuration name parses back to that edge, both exactly and
/// case-insensitively.
pub proof fn law_edge_name_roundtrip(edge: Edge)
    ensures
        edge_named(edge_text(edge)) == Some(edge),
        edge_named(ascii_lower_text(edge_text(edge))) == Some(edge),
{
    assert(ascii_lower_text(edge_text(edge)) =~= edge_text(edge));
    reveal_with_fuel(edge_named, 1);
    assert(edge_text(Edge::Left) != edge_text(Edge::Right));
    assert(edge_text(Edge::Left) != edge_text(Edge::Top));
    assert(edge_text(Edge::Left)[1] != edge_text(Edge::Bottom)[1]);
    assert(edge_text(Edge::Right) != edge_text(Edge::Top));
    assert(edge_text(Edge::Right) != edge_text(Edge::Bottom));
    assert(edge_text(Edge::Top) != edge_text(Edge::Bottom));
}

/// The two computers of a pair see the peer on opposite sides, and converting
/// a local side back to the canonical one gives the side started from.
pub proof fn law_local_layout_edges_face_each_other(windows_to_mac: Edge)
    ensures
        spec_local_layout_edge(windows_to_mac, true) == spec_local_layout_edge(
            windows_to_mac,
            false,
        ).spec_opposite(),
        spec_local_layout_edge(spec_local_layout_edge(windows_to_mac, true), true)
            == windows_to_mac,
{
}

} // verus!
