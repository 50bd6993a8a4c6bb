//! Clipboard synchronisation: which copy is the newest, which images are
//! small enough to send, and the per-tick decisions that send a new local
//! copy or apply a newer remote one. Only newly copied content is sent.
use crate::topology::NodeId;
use ring::digest::{digest, SHA256};
use vstd::prelude::*;
use vstd::string::*;
use vstd::utf8::*;

verus! {

pub const MAX_IMAGE_SIDE: usize = 8192;
pub const MAX_PIXELS: usize = 16777216;

/// Whether a clipboard image of `width` by `height` pixels may be sent: both
/// sides between 1 and 8192 and at most 16 Mi pixels.
pub open spec fn image_fits(width: nat, height: nat) -> bool {
    0 < width <= MAX_IMAGE_SIDE && 0 < height <= MAX_IMAGE_SIDE && width * height <= MAX_PIXELS
}

pub fn image_dimensions(width: usize, height: usize) -> (checked: Result<(), &'static str>)
    ensures
        image_fits(width as nat, height as nat) ==> checked is Ok,
        !image_fits(width as nat, height as nat) ==> (checked matches Err(m) && m@
            == "clipboard image exceeds supported dimensions"@),
{
    if width == 0 || height == 0 || width > MAX_IMAGE_SIDE || height > MAX_IMAGE_SIDE {
        return Err("clipboard image exceeds supported dimensions");
    }
    let w = width as u64;
    let h = height as u64;
    assert(w * h <= 8192 * 8192) by (nonlinear_arith)
        requires
            w <= 8192,
            h <= 8192,
    ;
    if w * h > MAX_PIXELS as u64 {
        Err("clipboard image exceeds supported dimensions")
    } else {
        Ok(())
    }
}

/// The logical clock of clipboard copies: the newest copy wins, ties broken by
/// the node ID.
#[derive(Debug, Clone, Copy, PartialEq, Eq)]
pub struct Revisions {
    pub clock: u64,
    pub accepted: (u64, u128),
}

impl Default for Revisions {
    fn default() -> (revisions: Revisions)
        ensures
            revisions.clock == 0,
            revisions.accepted == (0u64, 0u128),
    {
        Revisions { clock: 0, accepted: (0, 0) }
    }
}

/// Whether the copy `(revision, node)` is newer than `accepted`.
pub open spec fn newer(revision: u64, node: u128, accepted: (u64, u128)) -> bool {
    revision > accepted.0 || (revision == accepted.0 && node > accepted.1)
}

impl Revisions {
    /// A copy made here: the clock advances (saturating) and the copy is the
    /// accepted one.
    pub fn local(&mut self, node: NodeId) -> (revision: u64)
        ensures
            revision == if old(self).clock == u64::MAX {
                u64::MAX
            } else {
                (old(self).clock + 1) as u64
            },
            final(self).clock == revision,
            final(self).accepted == (revision, node.0),
    {
        self.clock = if self.clock == u64::MAX {
            u64::MAX
        } else {
            self.clock + 1
        };
        self.accepted = (self.clock, node.0);
        self.clock
    }

    /// A copy received from the peer: the clock catches up with it; it is to
    /// be applied exactly when it is newer than the accepted copy.
    pub fn receive(&mut self, revision: u64, node: NodeId) -> (apply: bool)
        ensures
            final(self).clock == if revision > old(self).clock {
                revision
            } else {
                old(self).clock
            },
            final(self).accepted == old(self).accepted,
            apply == newer(revision, node.0, old(self).accepted),
    {
        if revision > self.clock {
            self.clock = revision;
        }
        revision > self.accepted.0 || (revision == self.accepted.0 && node.0 > self.accepted.1)
    }

    /// A received copy was applied.
    pub fn applied(&mut self, revision: u64, node: NodeId)
        ensures
            final(self).clock == old(self).clock,
            final(self).accepted == (revision, node.0),
    {
        self.accepted = (revision, node.0);
    }
}

/// A copy made here after everything the clock has seen is newer than every
/// copy received before it, so a delayed remote copy cannot overwrite it.
pub proof fn law_local_copy_wins(clock: u64, node: u128, revision: u64, sender: u128)
    requires
        clock < u64::MAX,
        revision <= clock,
    ensures
        !newer(revision, sender, ((clock + 1) as u64, node)),
{
}


/// Of two different copies exactly one is newer than the other, so two
/// computers that exchange their copies settle on the same one.
pub proof fn law_copies_are_totally_ordered(r1: u64, n1: u128, r2: u64, n2: u128)
    requires
        r1 != r2 || n1 != n2,
    ensures
        newer(r1, n1, (r2, n2)) != newer(r2, n2, (r1, n1)),
{
}

/// What a clipboard holds that can be synchronised: text, or an image as PNG
/// bytes.
#[derive(Debug, Clone, PartialEq, Eq)]
pub enum ClipboardContent {
    Text(String),
    Png(Vec<u8>),
}

/// The bytes that identify a content: the UTF-8 of a text, or the PNG bytes.
pub open spec fn content_bytes(content: ClipboardContent) -> Seq<u8> {
    match content {
        ClipboardContent::Text(text) => encode_utf8(text@),
        ClipboardContent::Png(bytes) => bytes@,
    }
}

impl ClipboardContent {
    pub fn bytes(&self) -> (bytes: &[u8])
        ensures
            bytes@ == content_bytes(*self),
    {
        match self {
            ClipboardContent::Text(text) => text.as_str().as_bytes(),
            ClipboardContent::Png(bytes) => bytes.as_slice(),
        }
    }
}

/// A copy sent to the peer, with the revision of the copy.
#[derive(Debug, Clone, PartialEq, Eq)]
pub struct ClipboardPacket {
    pub revision: u64,
    pub content: ClipboardContent,
}

/// What a clipboard was asked to hold, oldest first.
pub type ClipboardWrites = Seq<ClipboardContent>;

/// A system clipboard: a revision that changes with every change of its
/// content, and reading and writing that may fail while it is busy. `writes`
/// is the clipboard's record of the contents it was asked to hold; every
/// implementation keeps it: each call of `write` adds its content, whether or
/// not the write succeeded, and reading leaves it as it was.
pub trait ClipboardBackend {
    spec fn writes(&self) -> ClipboardWrites;

    fn revision(&self) -> u64;

    fn read(&mut self) -> (read: Result<Option<ClipboardContent>, &'static str>)
        ensures
            final(self).writes() == old(self).writes(),
    ;

    fn write(&mut self, content: &ClipboardContent) -> (written: Result<(), &'static str>)
        ensures
            final(self).writes() == old(self).writes().push(*content),
    ;
}

/// The SHA-256 digest of `data`.
pub uninterp spec fn sha256_digest(data: Seq<u8>) -> Seq<u8>;

/// The longest input `ring` digests with SHA-256; it panics on longer ones.
pub const SHA256_MAX_INPUT: u64 = 0x1fff_ffff_ffff_ffff;

/// `ring::digest::digest` with `SHA256`: the 32-byte digest of `data`.
#[verifier::external_body]
fn sha256(data: &[u8]) -> (hash: Vec<u8>)
    requires
        data@.len() <= SHA256_MAX_INPUT,
    ensures
        hash@ == sha256_digest(data@),
        hash@.len() == 32,
{
    digest(&SHA256, data).as_ref().to_vec()
}

/// Whether two byte strings are equal.
fn same_bytes(a: &[u8], b: &[u8]) -> (same: bool)
    ensures
        same == (a@ == b@),
{
    if a.len() != b.len() {
        return false;
    }
    let mut i: usize = 0;
    while i < a.len()
        invariant
            i <= a@.len(),
            a@.len() == b@.len(),
            forall|j: int| 0 <= j < i ==> a@[j] == b@[j],
        decreases a@.len() - i,
    {
        if a[i] != b[i] {
            return false;
        }
        i = i + 1;
    }
    assert(a@ =~= b@);
    true
}

/// How many times a busy clipboard is retried for one remote copy.
pub const WRITE_RETRIES: u8 = 10;

/// `p` is the remote copy a round applied: it came in this round or was
/// waiting, it was newer than the copy accepted before, it is the accepted
/// copy now, and its digest is remembered so that reading it back from the
/// clipboard does not send it back.
pub open spec fn applied_copy(
    incoming: Option<ClipboardPacket>,
    waiting: Option<ClipboardPacket>,
    p: ClipboardPacket,
    peer: NodeId,
    before: Revisions,
    after: SyncState,
) -> bool {
    &&& incoming == Some(p) || waiting == Some(p)
    &&& newer(p.revision, peer.0, before.accepted)
    &&& after.revisions.accepted == (p.revision, peer.0)
    &&& content_bytes(p.content).len() <= SHA256_MAX_INPUT ==> (after.last_digest matches Some(d)
        && d@ == sha256_digest(content_bytes(p.content)))
}

/// The clock after a copy made here: one more, saturating.
pub open spec fn next_clock(clock: u64) -> u64 {
    if clock == u64::MAX {
        u64::MAX
    } else {
        (clock + 1) as u64
    }
}

/// The state once a round took the copy the peer sent, if any: the clock
/// catches up with it, and it waits to be applied when it is newer than the
/// accepted copy and than any copy already waiting (its retries start over);
/// otherwise what waits stays.
pub open spec fn incoming_taken(s: SyncState, peer: NodeId, incoming: Option<ClipboardPacket>) -> SyncState {
    match incoming {
        None => s,
        Some(p) => {
            let clock = if p.revision > s.revisions.clock {
                p.revision
            } else {
                s.revisions.clock
            };
            let keep = newer(p.revision, peer.0, s.revisions.accepted) && (s.pending is None
                || p.revision > s.pending.unwrap().revision);
            SyncState {
                revisions: Revisions { clock, ..s.revisions },
                pending: if keep {
                    Some(p)
                } else {
                    s.pending
                },
                retries: if keep {
                    0
                } else {
                    s.retries
                },
                ..s
            }
        },
    }
}

/// What reading `content` from the local clipboard does, from `s` to `after`,
/// sending `outgoing`. Content that is not synchronised (none, or too long to
/// digest) still counts as a local copy: it supersedes the accepted copy and
/// what waits, and nothing is sent. Content whose digest is the last one seen
/// (a copy this computer wrote itself) changes nothing. Any other content is
/// a new local copy: it is accepted, its digest remembered, what waits is
/// dropped, and it is sent with its revision.
pub open spec fn local_taken(
    s: SyncState,
    local: NodeId,
    content: Option<ClipboardContent>,
    after: SyncState,
    outgoing: Option<ClipboardPacket>,
) -> bool {
    let clock = next_clock(s.revisions.clock);
    let superseded = SyncState {
        revisions: Revisions { clock, accepted: (clock, local.0) },
        pending: None,
        ..s
    };
    match content {
        Some(c) if content_bytes(c).len() <= SHA256_MAX_INPUT => {
            if s.last_digest matches Some(d) && d@ == sha256_digest(content_bytes(c)) {
                after == s && outgoing is None
            } else {
                &&& after.revisions == superseded.revisions
                &&& after.pending is None
                &&& after.last_digest matches Some(d) && d@ == sha256_digest(content_bytes(c))
                &&& after.os_revision == s.os_revision
                &&& after.enabled == s.enabled
                &&& after.retries == s.retries
                &&& outgoing == Some(ClipboardPacket { revision: clock, content: c })
            }
        },
        _ => after == SyncState { last_digest: None, ..superseded } && outgoing is None,
    }
}

/// What trying to apply the waiting copy does, from `s` to `after`. A copy
/// that is no longer newer than the accepted one is dropped. A newer one
/// stays waiting while the clipboard changed since it was last read; once
/// written it is the accepted copy and its digest is remembered; a failed
/// write is retried in later rounds, up to `WRITE_RETRIES` times.
pub open spec fn pending_applied(s: SyncState, peer: NodeId, after: SyncState) -> bool {
    match s.pending {
        None => after == s,
        Some(p) => if !newer(p.revision, peer.0, s.revisions.accepted) {
            after == SyncState { pending: None, ..s }
        } else {
            ||| after == s
            ||| s.retries < WRITE_RETRIES && after == SyncState { retries: (s.retries + 1) as u8, ..s }
            ||| s.retries >= WRITE_RETRIES && after == SyncState { pending: None, ..s }
            ||| {
                &&& after.pending is None
                &&& after.revisions == Revisions { accepted: (p.revision, peer.0), ..s.revisions }
                &&& after.retries == s.retries
                &&& after.enabled == s.enabled
                &&& if content_bytes(p.content).len() <= SHA256_MAX_INPUT {
                    after.last_digest matches Some(d) && d@ == sha256_digest(content_bytes(p.content))
                } else {
                    after.last_digest is None
                }
            }
        },
    }
}

/// The synchronisation state of one computer.
pub struct SyncState {
    pub revisions: Revisions,
    pub os_revision: u64,
    pub last_digest: Option<Vec<u8>>,
    pub enabled: bool,
    pub pending: Option<ClipboardPacket>,
    pub retries: u8,
}

impl SyncState {
    pub open spec fn wf(&self) -> bool {
        &&& self.retries <= WRITE_RETRIES
        &&& self.last_digest matches Some(d) ==> d@.len() == 32
        &&& self.pending matches Some(p) ==> p.revision <= self.revisions.clock
    }

    /// A state that has seen the clipboard at `os_revision` and sends nothing
    /// until it is enabled.
    pub fn new(os_revision: u64) -> (state: SyncState)
        ensures
            state.wf(),
            state.revisions == (Revisions { clock: 0, accepted: (0u64, 0u128) }),
            state.os_revision == os_revision,
            state.last_digest is None,
            !state.enabled,
            state.pending is None,
            state.retries == 0,
    {
        SyncState {
            revisions: Revisions::default(),
            os_revision,
            last_digest: None,
            enabled: false,
            pending: None,
            retries: 0,
        }
    }

    /// Takes the copy the peer sent this round, as `incoming_taken` says.
    pub fn take_incoming(&mut self, peer: NodeId, incoming: Option<ClipboardPacket>)
        requires
            old(self).wf(),
        ensures
            final(self).wf(),
            *final(self) == incoming_taken(*old(self), peer, incoming),
    {
        if let Some(packet) = incoming {
            if self.revisions.receive(packet.revision, peer) {
                let replace = match &self.pending {
                    None => true,
                    Some(pending) => packet.revision > pending.revision,
                };
                if replace {
                    self.pending = Some(packet);
                    self.retries = 0;
                }
            }
        }
    }

    /// Takes what was read from the local clipboard, as `local_taken` says,
    /// and gives back the copy to send, if any.
    pub fn local_copy(&mut self, local: NodeId, content: Option<ClipboardContent>) -> (outgoing:
        Option<ClipboardPacket>)
        requires
            old(self).wf(),
        ensures
            final(self).wf(),
            local_taken(*old(self), local, content, *final(self), outgoing),
    {
        match content {
            Some(content) => {
                let bytes = content.bytes();
                if bytes.len() as u64 > SHA256_MAX_INPUT {
                    // Beyond what SHA-256 can digest: treated as content
                    // that cannot be synchronised.
                    self.revisions.local(local);
                    self.pending = None;
                    self.last_digest = None;
                    None
                } else {
                    let hash = sha256(bytes);
                    let seen = match &self.last_digest {
                        Some(last) => same_bytes(last.as_slice(), hash.as_slice()),
                        None => false,
                    };
                    if seen {
                        None
                    } else {
                        self.last_digest = Some(hash);
                        let revision = self.revisions.local(local);
                        self.pending = None;
                        Some(ClipboardPacket { revision, content })
                    }
                }
            },
            None => {
                // Unsupported or cleared local content still supersedes a
                // remote copy waiting for the clipboard.
                self.revisions.local(local);
                self.pending = None;
                self.last_digest = None;
                None
            },
        }
    }

    /// Tries to write the waiting copy to the clipboard, as `pending_applied`
    /// says. The clipboard is asked to hold the copy at most once, and only a
    /// copy newer than the accepted one.
    pub fn apply_pending<B: ClipboardBackend>(&mut self, backend: &mut B, peer: NodeId)
        requires
            old(self).wf(),
        ensures
            final(self).wf(),
            pending_applied(*old(self), peer, *final(self)),
            final(backend).writes() == old(backend).writes() || (old(self).pending matches Some(
                p,
            ) && newer(p.revision, peer.0, old(self).revisions.accepted) && final(backend).writes()
                == old(backend).writes().push(p.content)),
            final(self).revisions.accepted != old(self).revisions.accepted ==> (old(
                self,
            ).pending matches Some(p) && final(backend).writes() == old(backend).writes().push(
                p.content,
            )),
    {
        let ghost before = *self;
        if let Some(packet) = self.pending.take() {
            if self.revisions.receive(packet.revision, peer) {
                if backend.revision() != self.os_revision {
                    self.pending = Some(packet);
                    assert(*self == before);
                    return;
                }
                match backend.write(&packet.content) {
                    Ok(()) => {
                        let bytes = packet.content.bytes();
                        if bytes.len() as u64 <= SHA256_MAX_INPUT {
                            self.last_digest = Some(sha256(bytes));
                        } else {
                            self.last_digest = None;
                        }
                        self.os_revision = backend.revision();
                        self.revisions.applied(packet.revision, peer);
                    },
                    Err(_) => {
                        if self.retries < WRITE_RETRIES {
                            self.retries = self.retries + 1;
                            self.pending = Some(packet);
                        }
                    },
                }
            }
        }
    }

    /// One round: takes a copy the peer sent, sends a new local copy, and
    /// applies the newest remote copy when the clipboard is idle. While sync
    /// is off, and on the round it turns on, nothing is read, sent or kept, so
    /// content copied before is never replayed.
    pub fn tick<B: ClipboardBackend>(
        &mut self,
        backend: &mut B,
        enabled: bool,
        local: NodeId,
        peer: NodeId,
        incoming: Option<ClipboardPacket>,
    ) -> (outgoing: Option<ClipboardPacket>)
        requires
            old(self).wf(),
        ensures
            final(self).wf(),
            !enabled || !old(self).enabled ==> {
                &&& outgoing is None
                &&& final(self).pending is None
                &&& final(self).last_digest is None
                &&& final(self).enabled == enabled
                &&& final(self).revisions == old(self).revisions
                &&& final(self).retries == old(self).retries
            },
            enabled && old(self).enabled ==> final(self).enabled,
            outgoing matches Some(packet) ==> {
                &&& packet.revision == final(self).revisions.accepted.0
                &&& final(self).revisions.accepted.1 == local.0
                &&& packet.revision > old(self).revisions.clock || packet.revision == u64::MAX
                &&& final(self).pending is None
                &&& final(self).last_digest matches Some(d) && d@ == sha256_digest(content_bytes(packet.content))
                &&& !(old(self).last_digest matches Some(d) && d@ == sha256_digest(
                    content_bytes(packet.content),
                ))
            },
            local.0 != peer.0 && final(self).revisions.accepted != old(self).revisions.accepted
                && final(self).revisions.accepted.1 == peer.0 ==> exists|p: ClipboardPacket|
                applied_copy(incoming, old(self).pending, p, peer, old(self).revisions, *final(self))
                    && final(backend).writes() == old(backend).writes().push(p.content),
            final(backend).writes() == old(backend).writes() || exists|p: ClipboardPacket|
                #![trigger old(backend).writes().push(p.content)]
                (incoming == Some(p) || old(self).pending == Some(p)) && final(backend).writes()
                    == old(backend).writes().push(p.content),
            enabled && old(self).enabled ==> ({
                let taken = incoming_taken(*old(self), peer, incoming);
                ||| (outgoing is None && *final(self) == taken && final(backend).writes() == old(
                    backend,
                ).writes())
                ||| exists|read_done: SyncState|
                    #![trigger pending_applied(read_done, peer, *final(self))]
                    {
                        &&& pending_applied(read_done, peer, *final(self))
                        &&& {
                            ||| (read_done == taken && outgoing is None)
                            ||| exists|content: Option<ClipboardContent>|
                                #![trigger local_taken(SyncState { os_revision: read_done.os_revision, ..taken }, local, content, read_done, outgoing)]
                                local_taken(
                                    SyncState { os_revision: read_done.os_revision, ..taken },
                                    local,
                                    content,
                                    read_done,
                                    outgoing,
                                )
                        }
                    }
            }),
    {
        let revision = backend.revision();
        if !enabled || !self.enabled {
            self.os_revision = revision;
            self.pending = None;
            self.last_digest = None;
            self.enabled = enabled;
            return None;
        }
        self.take_incoming(peer, incoming);
        let ghost taken = *self;
        let mut outgoing: Option<ClipboardPacket> = None;
        if revision != self.os_revision {
            let read = backend.read();
            let content = match read {
                Ok(content) => content,
                Err(_) => return None,
            };
            if revision != backend.revision() {
                return None;
            }
            self.os_revision = revision;
            outgoing = self.local_copy(local, content);
            assert(local_taken(
                SyncState { os_revision: self.os_revision, ..taken },
                local,
                content,
                *self,
                outgoing,
            ));
        }
        let ghost read_done = *self;
        assert(read_done.revisions.accepted == old(self).revisions.accepted
            || read_done.revisions.accepted.1 == local.0);
        assert(read_done.revisions.accepted != old(self).revisions.accepted
            ==> read_done.pending is None);
        assert(read_done.pending is None || read_done.pending == old(self).pending
            || read_done.pending == incoming);
        self.apply_pending(backend, peer);
        assert(pending_applied(read_done, peer, *self));
        proof {
            if local.0 != peer.0 && self.revisions.accepted != old(self).revisions.accepted
                && self.revisions.accepted.1 == peer.0 {
                assert(self.revisions.accepted != read_done.revisions.accepted);
                let p = read_done.pending.unwrap();
                assert(applied_copy(incoming, old(self).pending, p, peer, old(self).revisions, *self));
            }
        }
        outgoing
    }
}

} // verus!
