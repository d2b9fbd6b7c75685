//! Host-side clipboard arbitration.
//!
//! Sequence numbers prevent echo: each device records the sequence it last
//! acknowledged, and content it already has is not handed to it again.
use vstd::prelude::*;
use crate::text::{bytes_eq, copy_bytes};

verus! {

#[derive(Debug, Clone)]
pub struct ClipboardEntry {
    pub sequence: u64,
    pub source_device: String,
    pub mime_type: String,
    pub data: Vec<u8>,
}

/// Abstract state of the clipboard arbitrator.
pub struct ClipboardModel {
    /// The latest accepted entry.
    pub current: Option<ClipboardEntry>,
    /// The last sequence number handed out.
    pub seq: u64,
    /// The sequence each device last acknowledged.
    pub acked: Map<Seq<char>, u64>,
}

/// Host-side clipboard arbitrator.
pub struct ClipboardManager {
    current: Option<ClipboardEntry>,
    seq: u64,
    /// Per-device last-acknowledged sequence; one entry per device.
    device_seq: Vec<(String, u64)>,
}

/// The map from device to acknowledged sequence that a list of pairs stands for.
pub open spec fn acked_map(pairs: Seq<(String, u64)>) -> Map<Seq<char>, u64>
    decreases pairs.len(),
{
    if pairs.len() == 0 {
        Map::empty()
    } else {
        acked_map(pairs.drop_last()).insert(pairs.last().0@, pairs.last().1)
    }
}

/// Two entries carry the same sequence, source, type and bytes.
pub open spec fn same_entry(a: ClipboardEntry, b: ClipboardEntry) -> bool {
    &&& a.sequence == b.sequence
    &&& a.source_device@ == b.source_device@
    &&& a.mime_type@ == b.mime_type@
    &&& a.data@ == b.data@
}

/// The entry a device should still receive: the current one, unless the device
/// has acknowledged its sequence (or a later one).
pub open spec fn pending_for(m: ClipboardModel, device: Seq<char>) -> Option<ClipboardEntry> {
    match m.current {
        None => None,
        Some(e) => {
            let last = if m.acked.contains_key(device) { m.acked[device] } else { 0 };
            if last >= e.sequence { None } else { Some(e) }
        },
    }
}

/// The notification repeats the current content (same type, same bytes).
pub open spec fn repeats_current(m: ClipboardModel, mime_type: Seq<char>, data: Seq<u8>) -> bool {
    m.current matches Some(e) && e.data@ == data && e.mime_type@ == mime_type
}

proof fn lemma_acked_map_update(pairs: Seq<(String, u64)>, i: int, v: u64)
    requires
        0 <= i < pairs.len(),
        forall|a: int, b: int| 0 <= a < b < pairs.len() ==> pairs[a].0@ != pairs[b].0@,
    ensures
        acked_map(pairs.update(i, (pairs[i].0, v))) == acked_map(pairs).insert(pairs[i].0@, v),
    decreases pairs.len(),
{
    let q = pairs.update(i, (pairs[i].0, v));
    if i == pairs.len() - 1 {
        assert(q.drop_last() =~= pairs.drop_last());
        assert(acked_map(q) =~= acked_map(pairs).insert(pairs[i].0@, v));
    } else {
        lemma_acked_map_update(pairs.drop_last(), i, v);
        assert(q.drop_last() =~= pairs.drop_last().update(i, (pairs[i].0, v)));
        assert(acked_map(q) =~= acked_map(pairs).insert(pairs[i].0@, v));
    }
}

proof fn lemma_acked_map_absent(pairs: Seq<(String, u64)>, k: Seq<char>)
    requires
        forall|j: int| 0 <= j < pairs.len() ==> pairs[j].0@ != k,
    ensures
        !acked_map(pairs).contains_key(k),
    decreases pairs.len(),
{
    if pairs.len() > 0 {
        lemma_acked_map_absent(pairs.drop_last(), k);
    }
}

proof fn lemma_acked_map_at(pairs: Seq<(String, u64)>, i: int)
    requires
        0 <= i < pairs.len(),
        forall|a: int, b: int| 0 <= a < b < pairs.len() ==> pairs[a].0@ != pairs[b].0@,
    ensures
        acked_map(pairs).contains_key(pairs[i].0@),
        acked_map(pairs)[pairs[i].0@] == pairs[i].1,
    decreases pairs.len(),
{
    if i < pairs.len() - 1 {
        lemma_acked_map_at(pairs.drop_last(), i);
    }
}

fn find_device(pairs: &Vec<(String, u64)>, device_id: &str) -> (r: Option<usize>)
    ensures
        r matches Some(i) ==> i < pairs@.len() && pairs@[i as int].0@ == device_id@,
        r is None ==> forall|j: int| 0 <= j < pairs@.len() ==> pairs@[j].0@ != device_id@,
{
    let mut i: usize = 0;
    while i < pairs.len()
        invariant
            i <= pairs@.len(),
            forall|j: int| 0 <= j < i ==> pairs@[j].0@ != device_id@,
        decreases pairs@.len() - i,
    {
        if pairs[i].0.as_str().eq(device_id) {
            return Some(i);
        }
        i += 1;
    }
    None
}

impl View for ClipboardManager {
    type V = ClipboardModel;

    closed spec fn view(&self) -> ClipboardModel {
        ClipboardModel { current: self.current, seq: self.seq, acked: acked_map(self.device_seq@) }
    }
}

fn copy_entry(e: &ClipboardEntry) -> (r: ClipboardEntry)
    ensures
        same_entry(r, *e),
{
    ClipboardEntry {
        sequence: e.sequence,
        source_device: e.source_device.clone(),
        mime_type: e.mime_type.clone(),
        data: copy_bytes(&e.data),
    }
}

impl ClipboardManager {
    #[verifier::type_invariant]
    spec fn inv(self) -> bool {
        &&& forall|a: int, b: int| 0 <= a < b < self.device_seq@.len() ==> self.device_seq@[a].0@ != self.device_seq@[b].0@
        &&& self.current matches Some(e) ==> e.sequence == self.seq
    }

    pub fn new() -> (r: Self)
        ensures
            r@.current is None,
            r@.seq == 0,
            r@.acked == Map::<Seq<char>, u64>::empty(),
    {
        ClipboardManager { current: None, seq: 0, device_seq: Vec::new() }
    }

    /// A device reports new clipboard content of the given MIME type.
    /// Returns the sequence number assigned to it, or None when the content is
    /// the same as the current one (whoever sent it).
    pub fn notify(&mut self, device_id: &str, mime_type: String, data: Vec<u8>) -> (r: Option<u64>)
        requires
            repeats_current(old(self)@, mime_type@, data@) || old(self)@.seq < u64::MAX,
        ensures
            repeats_current(old(self)@, mime_type@, data@) ==> r is None && final(self)@ == old(self)@,
            !repeats_current(old(self)@, mime_type@, data@) ==> {
                &&& r == Some((old(self)@.seq + 1) as u64)
                &&& final(self)@.seq == old(self)@.seq + 1
                &&& final(self)@.acked == old(self)@.acked
                &&& final(self)@.current matches Some(e) && e.sequence == final(self)@.seq
                    && e.source_device@ == device_id@ && e.mime_type@ == mime_type@ && e.data@ == data@
            },
    {
        proof {
            use_type_invariant(&*self);
        }
        if let Some(entry) = &self.current {
            if bytes_eq(entry.data.as_slice(), data.as_slice()) && entry.mime_type == mime_type {
                return None;
            }
        }
        let seq = self.seq + 1;
        self.current = None;
        self.seq = seq;
        self.current = Some(ClipboardEntry {
            sequence: seq,
            source_device: device_id.to_owned(),
            mime_type,
            data,
        });
        Some(seq)
    }

    /// A device acknowledges receiving clipboard sequence `seq`.
    pub fn ack(&mut self, device_id: &str, seq: u64)
        ensures
            final(self)@.current == old(self)@.current,
            final(self)@.seq == old(self)@.seq,
            final(self)@.acked == old(self)@.acked.insert(device_id@, seq),
    {
        proof {
            use_type_invariant(&*self);
        }
        let found = find_device(&self.device_seq, device_id);
        let mut pairs: Vec<(String, u64)> = Vec::new();
        std::mem::swap(&mut pairs, &mut self.device_seq);
        let ghost orig = pairs@;
        match found {
            Some(i) => {
                let name = pairs[i].0.clone();
                pairs.set(i, (name, seq));
                proof {
                    lemma_acked_map_update(orig, i as int, seq);
                    assert(orig.update(i as int, (orig[i as int].0, seq)) =~= pairs@);
                    assert(forall|a: int, b: int| 0 <= a < b < pairs@.len() ==> pairs@[a].0@ != pairs@[b].0@);
                }
            },
            None => {
                pairs.push((device_id.to_owned(), seq));
                proof {
                    assert(pairs@.drop_last() =~= orig);
                    assert(forall|a: int, b: int| 0 <= a < b < pairs@.len() ==> pairs@[a].0@ != pairs@[b].0@);
                }
            },
        }
        self.device_seq = pairs;
    }

    /// The current clipboard entry, unless `requesting_device` has already
    /// acknowledged it.
    pub fn get_for_device(&self, requesting_device: &str) -> (r: Option<ClipboardEntry>)
        ensures
            match pending_for(self@, requesting_device@) {
                None => r is None,
                Some(e) => r matches Some(c) && same_entry(c, e),
            },
    {
        proof {
            use_type_invariant(self);
        }
        let entry = match &self.current {
            Some(e) => e,
            None => {
                return None;
            },
        };
        let last: u64 = match find_device(&self.device_seq, requesting_device) {
            Some(i) => {
                proof {
                    lemma_acked_map_at(self.device_seq@, i as int);
                }
                self.device_seq[i].1
            },
            None => {
                proof {
                    lemma_acked_map_absent(self.device_seq@, requesting_device@);
                }
                0
            },
        };
        if last >= entry.sequence {
            None
        } else {
            Some(copy_entry(entry))
        }
    }

    /// The last sequence number handed out, which is the current entry's.
    pub fn current_seq(&self) -> (r: u64)
        ensures
            r == self@.seq,
            self@.current matches Some(e) ==> e.sequence == r,
    {
        proof {
            use_type_invariant(self);
        }
        self.seq
    }
}

/// Once a device acknowledges the sequence of the current entry (or a later
/// one), it is not handed that content again.
pub proof fn lemma_ack_suppresses_echo(before: ClipboardModel, after: ClipboardModel, device: Seq<char>, seq: u64)
    requires
        after.current == before.current,
        after.seq == before.seq,
        after.acked == before.acked.insert(device, seq),
        before.current matches Some(e) ==> seq >= e.sequence,
    ensures
        pending_for(after, device) is None,
{
}

/// A device that has not acknowledged anything receives the latest accepted
/// content.
pub proof fn lemma_fresh_device_receives(m: ClipboardModel, device: Seq<char>)
    requires
        m.current matches Some(e) && e.sequence > 0,
        !m.acked.contains_key(device),
    ensures
        pending_for(m, device) == m.current,
{
}

} // verus!
