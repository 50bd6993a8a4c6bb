use edgemouse::clipboard::{
    ClipboardBackend, ClipboardContent, ClipboardPacket, ClipboardWrites, SyncState,
};
use edgemouse::topology::NodeId;

#[derive(Default)]
struct FakeClipboard {
    revision: u64,
    content: Option<ClipboardContent>,
    reads: usize,
    writes: usize,
    busy_read: bool,
    busy_write: bool,
}

impl FakeClipboard {
    fn copy(&mut self, text: &str) {
        self.revision += 1;
        self.content = Some(ClipboardContent::Text(text.into()));
    }
}

impl ClipboardBackend for FakeClipboard {
    // Only the verifier reads the record of writes.
    fn writes(&self) -> ClipboardWrites {
        unreachable!()
    }

    fn revision(&self) -> u64 {
        self.revision
    }

    fn read(&mut self) -> Result<Option<ClipboardContent>, &'static str> {
        self.reads += 1;
        if self.busy_read {
            Err("busy")
        } else {
            Ok(self.content.clone())
        }
    }

    fn write(&mut self, content: &ClipboardContent) -> Result<(), &'static str> {
        if self.busy_write {
            return Err("busy");
        }
        self.writes += 1;
        self.revision += 1;
        self.content = Some(content.clone());
        Ok(())
    }
}

fn packet(revision: u64, text: &str) -> ClipboardPacket {
    ClipboardPacket {
        revision,
        content: ClipboardContent::Text(text.into()),
    }
}

fn tick(
    state: &mut SyncState,
    clipboard: &mut FakeClipboard,
    enabled: bool,
    incoming: Option<ClipboardPacket>,
) -> Option<ClipboardPacket> {
    state.tick(clipboard, enabled, NodeId(1), NodeId(2), incoming)
}

#[test]
fn newly_copied_unicode_syncs_once_without_reading_history_or_echoing() {
    let mut clipboard = FakeClipboard::default();
    clipboard.copy("private old history");
    let mut state = SyncState::new(clipboard.revision());
    assert!(tick(&mut state, &mut clipboard, true, None).is_none());
    assert_eq!(clipboard.reads, 0);
    clipboard.copy("新文字 👋\n第二行");
    assert_eq!(
        tick(&mut state, &mut clipboard, true, None).unwrap(),
        packet(1, "新文字 👋\n第二行")
    );
    assert!(tick(&mut state, &mut clipboard, true, None).is_none());
    assert!(tick(&mut state, &mut clipboard, true, Some(packet(2, "remote"))).is_none());
    assert_eq!(clipboard.writes, 1);
    assert!(tick(&mut state, &mut clipboard, true, None).is_none());
    assert_eq!(clipboard.reads, 1);
    tick(
        &mut state,
        &mut clipboard,
        true,
        Some(packet(2, "duplicate")),
    );
    assert_eq!(
        clipboard.content,
        Some(ClipboardContent::Text("remote".into()))
    );
}

#[test]
fn disabled_sync_does_not_read_write_or_replay_content_on_enable() {
    let mut clipboard = FakeClipboard::default();
    let mut state = SyncState::new(0);
    tick(&mut state, &mut clipboard, true, None);
    clipboard.copy("offline");
    assert!(tick(
        &mut state,
        &mut clipboard,
        false,
        Some(packet(20, "remote"))
    )
    .is_none());
    tick(&mut state, &mut clipboard, true, None);
    tick(&mut state, &mut clipboard, true, None);
    assert_eq!((clipboard.reads, clipboard.writes), (0, 0));
    clipboard.copy("new copy");
    assert!(tick(&mut state, &mut clipboard, true, None).is_some());
}

#[test]
fn clipboard_busy_retries_and_new_local_copy_supersedes_pending_remote() {
    let mut clipboard = FakeClipboard::default();
    let mut state = SyncState::new(0);
    tick(&mut state, &mut clipboard, true, None);
    clipboard.busy_write = true;
    tick(&mut state, &mut clipboard, true, Some(packet(8, "pending")));
    clipboard.copy("new local");
    clipboard.busy_write = false;
    assert_eq!(
        tick(&mut state, &mut clipboard, true, None)
            .unwrap()
            .revision,
        9
    );
    assert_eq!(clipboard.writes, 0);
    clipboard.busy_write = true;
    tick(&mut state, &mut clipboard, true, Some(packet(10, "retry")));
    clipboard.busy_write = false;
    tick(&mut state, &mut clipboard, true, None);
    assert_eq!(
        clipboard.content,
        Some(ClipboardContent::Text("retry".into()))
    );
}

#[test]
fn simultaneous_copies_converge_in_both_directions() {
    let mut a = FakeClipboard::default();
    let mut b = FakeClipboard::default();
    let mut sa = SyncState::new(0);
    let mut sb = SyncState::new(0);
    sa.tick(&mut a, true, NodeId(1), NodeId(2), None);
    sb.tick(&mut b, true, NodeId(2), NodeId(1), None);
    a.copy("A");
    b.copy("B");
    let from_a = sa.tick(&mut a, true, NodeId(1), NodeId(2), None);
    let from_b = sb.tick(&mut b, true, NodeId(2), NodeId(1), None);
    sa.tick(&mut a, true, NodeId(1), NodeId(2), from_b);
    sb.tick(&mut b, true, NodeId(2), NodeId(1), from_a);
    assert_eq!(a.content, b.content);
    assert_eq!(a.content, Some(ClipboardContent::Text("B".into())));
}

#[test]
fn unreadable_clipboard_retains_remote_transfer_until_a_stable_read() {
    let mut clipboard = FakeClipboard::default();
    let mut state = SyncState::new(0);
    tick(&mut state, &mut clipboard, true, None);
    // A failed observation must not drop the incoming payload.
    clipboard.revision = 1;
    clipboard.busy_read = true;
    tick(&mut state, &mut clipboard, true, Some(packet(3, "pending")));
    assert!(state.pending.is_some());
    assert_eq!(clipboard.writes, 0);
    clipboard.busy_read = false;
    clipboard.revision = 0;
    tick(&mut state, &mut clipboard, true, None);
    assert_eq!(clipboard.writes, 1);
}

#[test]
fn a_remote_write_that_keeps_failing_is_dropped_after_ten_retries() {
    let mut clipboard = FakeClipboard::default();
    let mut state = SyncState::new(0);
    tick(&mut state, &mut clipboard, true, None);
    clipboard.busy_write = true;
    tick(&mut state, &mut clipboard, true, Some(packet(5, "stuck")));
    for _ in 0..9 {
        tick(&mut state, &mut clipboard, true, None);
        assert!(state.pending.is_some());
    }
    tick(&mut state, &mut clipboard, true, None);
    assert!(state.pending.is_none());
    assert_eq!(clipboard.writes, 0);
}

#[test]
fn text_and_image_bytes_identify_the_content() {
    assert_eq!(ClipboardContent::Text("é".into()).bytes(), "é".as_bytes());
    assert_eq!(ClipboardContent::Png(vec![1, 2]).bytes(), &[1, 2]);
}

#[test]
fn a_newer_incoming_copy_waits_and_an_older_one_does_not() {
    let mut state = SyncState::new(0);
    state.take_incoming(NodeId(2), Some(packet(5, "five")));
    assert_eq!(state.pending, Some(packet(5, "five")));
    assert_eq!(state.revisions.clock, 5);
    assert_eq!(state.retries, 0);
    state.take_incoming(NodeId(2), Some(packet(3, "three")));
    assert_eq!(state.pending, Some(packet(5, "five")));
    state.take_incoming(NodeId(2), Some(packet(7, "seven")));
    assert_eq!(state.pending, Some(packet(7, "seven")));
    state.take_incoming(NodeId(2), None);
    assert_eq!(state.pending, Some(packet(7, "seven")));
}

#[test]
fn a_local_copy_is_sent_once_and_supersedes_what_waits() {
    let mut state = SyncState::new(0);
    state.take_incoming(NodeId(2), Some(packet(5, "remote")));
    let sent = state.local_copy(NodeId(1), Some(ClipboardContent::Text("mine".into())));
    assert_eq!(sent, Some(packet(6, "mine")));
    assert_eq!(state.pending, None);
    assert_eq!(state.revisions.accepted, (6, 1));
    assert_eq!(state.last_digest.as_ref().map(|d| d.len()), Some(32));
    assert_eq!(state.local_copy(NodeId(1), Some(ClipboardContent::Text("mine".into()))), None);
    assert_eq!(state.revisions.accepted, (6, 1));
    assert_eq!(state.local_copy(NodeId(1), None), None);
    assert_eq!(state.revisions.accepted, (7, 1));
    assert_eq!(state.last_digest, None);
}

#[test]
fn the_waiting_copy_is_written_when_the_clipboard_is_idle() {
    let mut clipboard = FakeClipboard::default();
    let mut state = SyncState::new(0);
    state.take_incoming(NodeId(2), Some(packet(4, "remote")));
    state.apply_pending(&mut clipboard, NodeId(2));
    assert_eq!(clipboard.content, Some(ClipboardContent::Text("remote".into())));
    assert_eq!(state.pending, None);
    assert_eq!(state.revisions.accepted, (4, 2));
    assert_eq!(state.os_revision, clipboard.revision);
}
