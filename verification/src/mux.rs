//! Notification stream bookkeeping.
//!
//! Every open notification channel across all connected peripherals is one
//! entry of a single table: the channel's file handle, the peripheral it
//! belongs to, which of that peripheral's sources it is, and how many
//! bytes one notification carries.  Keeping the four in one entry (rather
//! than in parallel lists) means removing a peripheral's group can never
//! misalign what is left.  Polling and reading the handles happens
//! outside; this table is the bookkeeping it relies on.

use vstd::prelude::*;
use vstd::seq_lib::group_seq_properties;

verus! {

/// One open notification channel.
#[derive(Clone, Copy, PartialEq, Eq, Structural, Debug)]
pub struct StreamEntry {
    /// Raw file descriptor of the channel, as the transport handed it out.
    pub handle: i32,
    /// Catalog index of the owning peripheral.
    pub device: usize,
    /// Index of the source within that peripheral's source list.
    pub source: usize,
    /// Bytes one notification of this source carries.
    pub byte_len: usize,
}

/// The open notification channels, in subscription order.
pub struct NotifyStreams {
    pub entries: Vec<StreamEntry>,
}

/// The table without every entry of one peripheral.
pub open spec fn spec_without_device(entries: Seq<StreamEntry>, device: usize) -> Seq<StreamEntry> {
    entries.filter(|e: StreamEntry| e.device != device)
}

/// The entries of one peripheral, in table order.
pub open spec fn spec_device_entries(entries: Seq<StreamEntry>, device: usize) -> Seq<StreamEntry> {
    entries.filter(|e: StreamEntry| e.device == device)
}

/// One step of `filter`: filtering past a pushed element keeps the filter
/// of the prefix and appends the element exactly when it matches.
proof fn lemma_filter_push<A>(s: Seq<A>, pred: spec_fn(A) -> bool, e: A)
    ensures
        s.push(e).filter(pred) == if pred(e) {
            s.filter(pred).push(e)
        } else {
            s.filter(pred)
        },
{
    reveal(Seq::filter);
    assert(s.push(e).drop_last() =~= s);
    assert(s.push(e).last() == e);
}

impl NotifyStreams {
    /// An empty table: no peripheral is subscribed yet.
    pub fn new() -> (r: NotifyStreams)
        ensures
            r.entries@ =~= Seq::<StreamEntry>::empty(),
    {
        NotifyStreams { entries: Vec::new() }
    }

    /// Registers a freshly connected peripheral: one entry per notification
    /// source, appended in source order, each pairing the handle the
    /// transport returned with the byte length that source's frames have.
    pub fn add(&mut self, device: usize, handles: &Vec<i32>, byte_lens: &Vec<usize>)
        requires
            handles@.len() == byte_lens@.len(),
        ensures
            final(self).entries@.len() == old(self).entries@.len() + handles@.len(),
            forall|k: int|
                0 <= k < old(self).entries@.len() ==> #[trigger] final(self).entries@[k] == old(
                    self,
                ).entries@[k],
            forall|k: int|
                0 <= k < handles@.len() ==> #[trigger] final(self).entries@[old(
                    self,
                ).entries@.len() + k] == (StreamEntry {
                    handle: handles@[k],
                    device,
                    source: k as usize,
                    byte_len: byte_lens@[k],
                }),
    {
        let n = handles.len();
        let ghost base = self.entries@.len();
        let mut k: usize = 0;
        while k < n
            invariant
                n == handles@.len(),
                n == byte_lens@.len(),
                k <= n,
                self.entries@.len() == base + k,
                forall|j: int|
                    0 <= j < base ==> #[trigger] self.entries@[j] == old(self).entries@[j],
                forall|j: int|
                    0 <= j < k ==> #[trigger] self.entries@[base + j] == (StreamEntry {
                        handle: handles@[j],
                        device,
                        source: j as usize,
                        byte_len: byte_lens@[j],
                    }),
            decreases n - k,
        {
            self.entries.push(
                StreamEntry {
                    handle: handles[k],
                    device,
                    source: k,
                    byte_len: byte_lens[k],
                },
            );
            k = k + 1;
        }
    }

    /// Drops every entry of a departing peripheral as one group, keeping
    /// all other entries in order.
    pub fn remove(&mut self, device: usize)
        ensures
            final(self).entries@ == spec_without_device(old(self).entries@, device),
    {
        let ghost all = self.entries@;
        let mut kept: Vec<StreamEntry> = Vec::new();
        let n = self.entries.len();
        let mut i: usize = 0;
        proof {
            assert(all.subrange(0, 0).filter(|e: StreamEntry| e.device != device)
                =~= Seq::<StreamEntry>::empty()) by {
                reveal(Seq::filter);
                assert(all.subrange(0, 0) =~= Seq::<StreamEntry>::empty());
            }
        }
        while i < n
            invariant
                n == self.entries@.len(),
                all == self.entries@,
                i <= n,
                kept@ == all.subrange(0, i as int).filter(|e: StreamEntry| e.device != device),
            decreases n - i,
        {
            let e = self.entries[i];
            let ghost prefix = all.subrange(0, i as int);
            if e.device != device {
                kept.push(e);
            }
            proof {
                assert(all.subrange(0, i + 1) =~= prefix.push(e));
                lemma_filter_push(prefix, |x: StreamEntry| x.device != device, e);
            }
            i = i + 1;
        }
        proof {
            assert(all.subrange(0, n as int) =~= all);
        }
        self.entries = kept;
    }

    /// Looks an entry up by its position, for the polling loop outside.
    pub fn get(&self, i: usize) -> (r: StreamEntry)
        requires
            i < self.entries@.len(),
        ensures
            r == self.entries@[i as int],
    {
        self.entries[i]
    }

    /// How many channels are open.
    pub fn len(&self) -> (r: usize)
        ensures
            r == self.entries@.len(),
    {
        self.entries.len()
    }
}

/// Law: removing one peripheral's group leaves every other peripheral's
/// entries exactly as they were, same entries in the same order; no index
/// shift can corrupt an unrelated group.
pub proof fn lemma_remove_keeps_other_devices(entries: Seq<StreamEntry>, removed: usize, other: usize)
    requires
        removed != other,
    ensures
        spec_device_entries(spec_without_device(entries, removed), other) == spec_device_entries(
            entries,
            other,
        ),
    decreases entries.len(),
{
    broadcast use group_seq_properties;

    reveal(Seq::filter);
    if entries.len() == 0 {
        assert(spec_without_device(entries, removed) =~= entries);
    } else {
        let prefix = entries.drop_last();
        let e = entries.last();
        lemma_remove_keeps_other_devices(prefix, removed, other);
        assert(prefix.push(e) =~= entries);
        lemma_filter_push(prefix, |x: StreamEntry| x.device != removed, e);
        let without = spec_without_device(prefix, removed);
        if e.device != removed {
            lemma_filter_push(without, |x: StreamEntry| x.device == other, e);
            lemma_filter_push(prefix, |x: StreamEntry| x.device == other, e);
            assert(spec_without_device(entries, removed) =~= without.push(e));
        } else {
            lemma_filter_push(prefix, |x: StreamEntry| x.device == other, e);
            assert(spec_without_device(entries, removed) =~= without);
        }
    }
}

} // verus!
