//! The checks the agent's configuration passes: names, the screen layout,
//! and the session numbers that must be in range, with the defaults of the
//! values a config may leave out. The values are read out of the parsed TOML
//! document; the certificates and the socket addresses stay with the caller.
use crate::cli::{screen_name_fault, validate_screen_name};
use crate::geometry::{ascii_lower_text, edge_named, parse_edge, peer_on_message, Edge};
use crate::import::{
    id_in_subtable, required_id, required_text, session_integer, session_integer_or,
    text_in_subtable, text_in_table, toml_leaves, TomlLeaf,
};
use vstd::prelude::*;

verus! {

/// The local node's name and the connection timeout, as pairing reads them.
pub fn check_pairing_values(local_name: &str, connect_timeout_seconds: u64) -> (checked: Result<
    (),
    String,
>)
    ensures
        match screen_name_fault(local_name@, "local.name"@) {
            Some(fault) => checked matches Err(m) && m@ == fault,
            None => if connect_timeout_seconds == 0 {
                checked matches Err(m) && m@
                    == "session.connect_timeout_seconds must be greater than zero"@
            } else {
                checked is Ok
            },
        },
{
    validate_screen_name(local_name, "local.name")?;
    if connect_timeout_seconds == 0 {
        return Err("session.connect_timeout_seconds must be greater than zero".to_owned());
    }
    Ok(())
}

/// The screen layout: the local and the peer's screen must differ, the
/// peer's screen needs a valid name, and the edge the peer lies on must be
/// one of the four, in any ASCII case; that edge is handed back.
pub fn check_layout(local_screen: u64, peer_screen: u64, peer_screen_name: &str, peer_on: &str) -> (checked:
    Result<Edge, String>)
    ensures
        local_screen == peer_screen ==> (checked matches Err(m) && m@
            == "local and peer screen ids must be different"@),
        local_screen != peer_screen ==> match screen_name_fault(
            peer_screen_name@,
            "peer.screen.name"@,
        ) {
            Some(fault) => checked matches Err(m) && m@ == fault,
            None => match edge_named(ascii_lower_text(peer_on@)) {
                Some(edge) => checked == Ok::<Edge, String>(edge),
                None => checked matches Err(m) && m@ == peer_on_message(peer_on@),
            },
        },
{
    if local_screen == peer_screen {
        return Err("local and peer screen ids must be different".to_owned());
    }
    validate_screen_name(peer_screen_name, "peer.screen.name")?;
    parse_edge(peer_on)
}

/// The pointer smoothing is a percentage.
pub fn check_pointer_smoothing(pointer_smoothing: u8) -> (checked: Result<(), String>)
    ensures
        pointer_smoothing <= 100 ==> checked is Ok,
        pointer_smoothing > 100 ==> (checked matches Err(m) && m@
            == "session.pointer_smoothing must be between 0 and 100"@),
{
    if pointer_smoothing > 100 {
        return Err("session.pointer_smoothing must be between 0 and 100".to_owned());
    }
    Ok(())
}

/// What `check_pairing_values` refuses, if anything.
pub open spec fn pairing_fault(local_name: Seq<char>, connect_timeout_seconds: u64) -> Option<
    Seq<char>,
> {
    match screen_name_fault(local_name, "local.name"@) {
        Some(fault) => Some(fault),
        None => if connect_timeout_seconds == 0 {
            Some("session.connect_timeout_seconds must be greater than zero"@)
        } else {
            None
        },
    }
}

/// What `check_layout` refuses, if anything.
pub open spec fn layout_fault(
    local_screen: u64,
    peer_screen: u64,
    peer_screen_name: Seq<char>,
    peer_on: Seq<char>,
) -> Option<Seq<char>> {
    if local_screen == peer_screen {
        Some("local and peer screen ids must be different"@)
    } else {
        match screen_name_fault(peer_screen_name, "peer.screen.name"@) {
            Some(fault) => Some(fault),
            None => match edge_named(ascii_lower_text(peer_on)) {
                Some(_) => None,
                None => Some(peer_on_message(peer_on)),
            },
        }
    }
}

/// The first refusal of a config's values, in the order they are read:
/// the connection timeout (30 when left out), the local name, the two screen
/// ids, the peer's screen name, the edge the peer lies on, and the pointer
/// smoothing (52 when left out).
pub open spec fn config_values_fault(leaves: Map<Seq<Seq<char>>, TomlLeaf>) -> Option<Seq<char>> {
    let timeout = session_integer(leaves, "connect_timeout_seconds"@, 30);
    let local_name = required_text(leaves, seq!["local"@, "name"@], "local.name"@);
    let local_screen = required_id(leaves, seq!["local"@, "screen"@, "id"@], "local.screen.id"@);
    let peer_screen = required_id(leaves, seq!["peer"@, "screen"@, "id"@], "peer.screen.id"@);
    let peer_name = required_text(leaves, seq!["peer"@, "screen"@, "name"@], "peer.screen.name"@);
    let peer_on = required_text(leaves, seq!["layout"@, "peer_on"@], "layout.peer_on"@);
    let smoothing = session_integer(leaves, "pointer_smoothing"@, 52);
    if timeout is Err {
        Some(timeout->Err_0)
    } else if timeout->Ok_0 < 0 {
        Some("invalid session.connect_timeout_seconds"@)
    } else if local_name is Err {
        Some(local_name->Err_0)
    } else if pairing_fault(local_name->Ok_0, timeout->Ok_0 as u64) is Some {
        pairing_fault(local_name->Ok_0, timeout->Ok_0 as u64)
    } else if local_screen is Err {
        Some(local_screen->Err_0)
    } else if peer_screen is Err {
        Some(peer_screen->Err_0)
    } else if peer_name is Err {
        Some(peer_name->Err_0)
    } else if peer_on is Err {
        Some(peer_on->Err_0)
    } else if layout_fault(
        local_screen->Ok_0,
        peer_screen->Ok_0,
        peer_name->Ok_0,
        peer_on->Ok_0,
    ) is Some {
        layout_fault(local_screen->Ok_0, peer_screen->Ok_0, peer_name->Ok_0, peer_on->Ok_0)
    } else if smoothing is Err {
        Some(smoothing->Err_0)
    } else if smoothing->Ok_0 < 0 || smoothing->Ok_0 > 255 {
        Some("invalid session.pointer_smoothing"@)
    } else if smoothing->Ok_0 > 100 {
        Some("session.pointer_smoothing must be between 0 and 100"@)
    } else {
        None
    }
}

/// The value checks a parsed agent config passes, as far as they do not need
/// the certificates or the socket addresses.
pub fn check_config_values(document: &toml::Value) -> (checked: Result<(), String>)
    ensures
        match config_values_fault(toml_leaves(*document)) {
            None => checked is Ok,
            Some(fault) => checked matches Err(m) && m@ == fault,
        },
{
    let timeout = session_integer_or(document, "connect_timeout_seconds", 30)?;
    if timeout < 0 {
        return Err("invalid session.connect_timeout_seconds".to_owned());
    }
    let local_name = text_in_table(document, "local", "name", "local.name")?;
    check_pairing_values(local_name.as_str(), timeout as u64)?;
    let local_screen = id_in_subtable(document, "local", "screen", "id", "local.screen.id")?;
    let peer_screen = id_in_subtable(document, "peer", "screen", "id", "peer.screen.id")?;
    let peer_name = text_in_subtable(document, "peer", "screen", "name", "peer.screen.name")?;
    let peer_on = text_in_table(document, "layout", "peer_on", "layout.peer_on")?;
    check_layout(local_screen, peer_screen, peer_name.as_str(), peer_on.as_str())?;
    let smoothing = session_integer_or(document, "pointer_smoothing", 52)?;
    if smoothing < 0 || smoothing > 255 {
        return Err("invalid session.pointer_smoothing".to_owned());
    }
    check_pointer_smoothing(smoothing as u8)
}

} // verus!
