//! Sessions and their caches.
//!
//! A session owns the RAW bytes and the metadata of one image, plus a
//! write-once cache of the decoded linear buffer per preview tier and a
//! replaceable cache of rasterized mask bitmaps per tier. Sessions live
//! in a store that maps opaque non-zero handles to them; a monotonic
//! counter issues handles starting at 1, and handle 0 is never valid.
//! The host serializes access to the store (and may wrap it in locks);
//! the store itself is a plain state machine.

use vstd::prelude::*;

use crate::buffer::LinearBuf;
use crate::types::PreviewKind;

use std::collections::HashMap;

verus! {

broadcast use vstd::std_specs::hash::group_hash_axioms;

/// The cached mask rasterization of one preview tier: the key is the
/// canonical text of the `masks` subtree of the adjustments payload
/// together with the buffer dimensions it was rasterized for; the
/// value is one optional bitmap per mask (masks without spatial
/// influence have none).
pub struct MasksCacheEntry {
    pub masks_key: String,
    pub width: u32,
    pub height: u32,
    pub bitmaps: Vec<Option<Vec<u8>>>,
}

/// One editing session.
pub struct Session {
    pub raw_bytes: Vec<u8>,
    pub metadata_json: String,
    pub super_low: Option<LinearBuf>,
    pub low: Option<LinearBuf>,
    pub preview: Option<LinearBuf>,
    pub masks_super_low: Option<MasksCacheEntry>,
    pub masks_low: Option<MasksCacheEntry>,
    pub masks_preview: Option<MasksCacheEntry>,
}

impl Session {
    /// The linear-buffer cache slot of one preview tier.
    pub open spec fn linear_slot(self, kind: PreviewKind) -> Option<LinearBuf> {
        match kind {
            PreviewKind::SuperLow => self.super_low,
            PreviewKind::Low => self.low,
            PreviewKind::Preview => self.preview,
        }
    }

    /// The mask cache slot of one preview tier.
    pub open spec fn masks_slot(self, kind: PreviewKind) -> Option<MasksCacheEntry> {
        match kind {
            PreviewKind::SuperLow => self.masks_super_low,
            PreviewKind::Low => self.masks_low,
            PreviewKind::Preview => self.masks_preview,
        }
    }

    /// This session with the linear slot of one tier replaced.
    pub open spec fn with_linear(self, kind: PreviewKind, b: Option<LinearBuf>) -> Session {
        match kind {
            PreviewKind::SuperLow => Session { super_low: b, ..self },
            PreviewKind::Low => Session { low: b, ..self },
            PreviewKind::Preview => Session { preview: b, ..self },
        }
    }

    /// This session with the mask cache slot of one tier replaced.
    pub open spec fn with_masks(self, kind: PreviewKind, e: Option<MasksCacheEntry>) -> Session {
        match kind {
            PreviewKind::SuperLow => Session { masks_super_low: e, ..self },
            PreviewKind::Low => Session { masks_low: e, ..self },
            PreviewKind::Preview => Session { masks_preview: e, ..self },
        }
    }
}

/// The process-wide registry of sessions.
pub struct SessionStore {
    next_handle: u64,
    map: HashMap<u64, Session>,
}

impl SessionStore {
    /// The sessions by handle.
    pub closed spec fn sessions(self) -> Map<u64, Session> {
        self.map@
    }

    /// The next handle the store will issue.
    pub closed spec fn next(self) -> u64 {
        self.next_handle
    }

    /// Handles are non-zero and below the issue counter, so a fresh
    /// handle never collides and 0 never resolves.
    pub open spec fn wf(self) -> bool {
        &&& 1 <= self.next()
        &&& forall|k: u64| self.sessions().contains_key(k) ==> 1 <= k < self.next()
    }

    /// An empty store whose first handle will be 1.
    pub fn new() -> (s: Self)
        ensures
            s.wf(),
            s.sessions() == Map::<u64, Session>::empty(),
            s.next() == 1,
    {
        let s = SessionStore { next_handle: 1, map: HashMap::new() };
        proof {
            assert(s.sessions() =~= Map::<u64, Session>::empty());
        }
        s
    }

    /// Registers a session for the given RAW bytes and metadata (`{}`
    /// stands in where none could be read) and returns its fresh
    /// handle. Returns 0, changing nothing, exactly when the handle
    /// space is exhausted.
    pub fn create_session(&mut self, raw_bytes: Vec<u8>, metadata_json: Option<String>) -> (h: u64)
        requires
            old(self).wf(),
        ensures
            final(self).wf(),
            h == 0 <==> old(self).next() == u64::MAX,
            h == 0 ==> final(self).sessions() == old(self).sessions() && final(self).next() == old(self).next(),
            h != 0 ==> {
                &&& !old(self).sessions().contains_key(h)
                &&& h == old(self).next()
                &&& final(self).next() == old(self).next() + 1
                &&& final(self).sessions().dom() =~= old(self).sessions().dom().insert(h)
                &&& (forall|k: u64| k != h && old(self).sessions().contains_key(k)
                    ==> final(self).sessions()[k] == old(self).sessions()[k])
                &&& final(self).sessions()[h].raw_bytes@ == raw_bytes@
                &&& (match metadata_json {
                    Some(m) => final(self).sessions()[h].metadata_json@ == m@,
                    None => final(self).sessions()[h].metadata_json@ == "{}"@,
                })
                &&& final(self).sessions()[h].linear_slot(PreviewKind::SuperLow) is None
                &&& final(self).sessions()[h].linear_slot(PreviewKind::Low) is None
                &&& final(self).sessions()[h].linear_slot(PreviewKind::Preview) is None
                &&& final(self).sessions()[h].masks_slot(PreviewKind::SuperLow) is None
                &&& final(self).sessions()[h].masks_slot(PreviewKind::Low) is None
                &&& final(self).sessions()[h].masks_slot(PreviewKind::Preview) is None
            },
    {
        if self.next_handle == u64::MAX {
            return 0;
        }
        let h = self.next_handle;
        self.next_handle = self.next_handle + 1;
        let metadata = match metadata_json {
            Some(m) => m,
            None => "{}".to_owned(),
        };
        let session = Session {
            raw_bytes,
            metadata_json: metadata,
            super_low: None,
            low: None,
            preview: None,
            masks_super_low: None,
            masks_low: None,
            masks_preview: None,
        };
        self.map.insert(h, session);
        proof {
            assert forall|k: u64| final(self).sessions().contains_key(k) implies 1 <= k < final(self).next() by {
                if k != h {
                    assert(old(self).sessions().contains_key(k));
                }
            }
        }
        h
    }

    /// Removes the session of a handle, if any.
    pub fn release_session(&mut self, handle: u64)
        requires
            old(self).wf(),
        ensures
            final(self).wf(),
            final(self).sessions() == old(self).sessions().remove(handle),
            final(self).next() == old(self).next(),
    {
        self.map.remove(&handle);
        proof {
            assert(final(self).sessions() =~= old(self).sessions().remove(handle));
        }
    }

    /// The metadata of a session, if the handle resolves.
    pub fn metadata_json(&self, handle: u64) -> (r: Option<&String>)
        ensures
            match r {
                Some(m) => self.sessions().contains_key(handle) && *m == self.sessions()[handle].metadata_json,
                None => !self.sessions().contains_key(handle),
            },
    {
        match self.map.get(&handle) {
            Some(s) => Some(&s.metadata_json),
            None => None,
        }
    }

    /// The RAW bytes of a session, if the handle resolves.
    pub fn raw_bytes(&self, handle: u64) -> (r: Option<&Vec<u8>>)
        ensures
            match r {
                Some(b) => self.sessions().contains_key(handle) && *b == self.sessions()[handle].raw_bytes,
                None => !self.sessions().contains_key(handle),
            },
    {
        match self.map.get(&handle) {
            Some(s) => Some(&s.raw_bytes),
            None => None,
        }
    }

    /// The cached linear buffer of one tier, if the handle resolves
    /// and the slot was filled.
    pub fn cached_linear(&self, handle: u64, kind: PreviewKind) -> (r: Option<&LinearBuf>)
        ensures
            match r {
                Some(b) => self.sessions().contains_key(handle)
                    && self.sessions()[handle].linear_slot(kind) == Some(*b),
                None => !self.sessions().contains_key(handle)
                    || self.sessions()[handle].linear_slot(kind) is None,
            },
    {
        match self.map.get(&handle) {
            Some(s) => match kind {
                PreviewKind::SuperLow => s.super_low.as_ref(),
                PreviewKind::Low => s.low.as_ref(),
                PreviewKind::Preview => s.preview.as_ref(),
            },
            None => None,
        }
    }

    /// Fills the linear-buffer slot of one tier. The slot is
    /// write-once: a filled slot, like an unknown handle, leaves the
    /// store unchanged.
    pub fn store_linear(&mut self, handle: u64, kind: PreviewKind, buf: LinearBuf)
        requires
            old(self).wf(),
        ensures
            final(self).wf(),
            final(self).next() == old(self).next(),
            !old(self).sessions().contains_key(handle) ==> final(self).sessions() == old(self).sessions(),
            old(self).sessions().contains_key(handle) && old(self).sessions()[handle].linear_slot(kind) is Some
                ==> final(self).sessions() == old(self).sessions(),
            old(self).sessions().contains_key(handle) && old(self).sessions()[handle].linear_slot(kind) is None
                ==> final(self).sessions() == old(self).sessions().insert(
                    handle,
                    old(self).sessions()[handle].with_linear(kind, Some(buf)),
                ),
    {
        let vacant = match self.map.get(&handle) {
            None => false,
            Some(s) => match kind {
                PreviewKind::SuperLow => s.super_low.is_none(),
                PreviewKind::Low => s.low.is_none(),
                PreviewKind::Preview => s.preview.is_none(),
            },
        };
        if !vacant {
            proof {
                assert(final(self).sessions() =~= old(self).sessions());
            }
            return;
        }
        match self.map.remove(&handle) {
            Some(mut s) => {
                match kind {
                    PreviewKind::SuperLow => {
                        s.super_low = Some(buf);
                    },
                    PreviewKind::Low => {
                        s.low = Some(buf);
                    },
                    PreviewKind::Preview => {
                        s.preview = Some(buf);
                    },
                }
                self.map.insert(handle, s);
                proof {
                    assert(final(self).sessions() =~= old(self).sessions().insert(
                        handle,
                        old(self).sessions()[handle].with_linear(kind, Some(buf)),
                    ));
                }
            },
            None => {
                proof {
                    assert(final(self).sessions() =~= old(self).sessions());
                }
            },
        }
    }

    /// The cached mask bitmaps of one tier, provided the handle
    /// resolves and the cache was built for the same masks text and
    /// the same dimensions.
    pub fn cached_masks(&self, handle: u64, kind: PreviewKind, key: &String, width: u32, height: u32) -> (r:
        Option<&Vec<Option<Vec<u8>>>>)
        ensures
            match r {
                Some(b) => self.sessions().contains_key(handle)
                    && self.sessions()[handle].masks_slot(kind) is Some && {
                    let e = self.sessions()[handle].masks_slot(kind)->0;
                    &&& e.masks_key@ == key@
                    &&& e.width == width
                    &&& e.height == height
                    &&& *b == e.bitmaps
                },
                None => !self.sessions().contains_key(handle)
                    || self.sessions()[handle].masks_slot(kind) is None || {
                    let e = self.sessions()[handle].masks_slot(kind)->0;
                    e.masks_key@ != key@ || e.width != width || e.height != height
                },
            },
    {
        match self.map.get(&handle) {
            Some(s) => {
                let slot = match kind {
                    PreviewKind::SuperLow => s.masks_super_low.as_ref(),
                    PreviewKind::Low => s.masks_low.as_ref(),
                    PreviewKind::Preview => s.masks_preview.as_ref(),
                };
                match slot {
                    Some(e) => {
                        if e.width == width && e.height == height && e.masks_key == *key {
                            Some(&e.bitmaps)
                        } else {
                            None
                        }
                    },
                    None => None,
                }
            },
            None => None,
        }
    }

    /// Replaces the mask cache of one tier with a rasterization for
    /// the given masks text and dimensions. An unknown handle leaves
    /// the store unchanged.
    pub fn store_masks(
        &mut self,
        handle: u64,
        kind: PreviewKind,
        key: String,
        width: u32,
        height: u32,
        bitmaps: Vec<Option<Vec<u8>>>,
    )
        requires
            old(self).wf(),
        ensures
            final(self).wf(),
            final(self).next() == old(self).next(),
            !old(self).sessions().contains_key(handle) ==> final(self).sessions() == old(self).sessions(),
            old(self).sessions().contains_key(handle) ==> final(self).sessions() == old(self).sessions().insert(
                handle,
                old(self).sessions()[handle].with_masks(
                    kind,
                    Some(MasksCacheEntry { masks_key: key, width, height, bitmaps }),
                ),
            ),
    {
        match self.map.remove(&handle) {
            Some(mut s) => {
                let entry = MasksCacheEntry { masks_key: key, width, height, bitmaps };
                match kind {
                    PreviewKind::SuperLow => {
                        s.masks_super_low = Some(entry);
                    },
                    PreviewKind::Low => {
                        s.masks_low = Some(entry);
                    },
                    PreviewKind::Preview => {
                        s.masks_preview = Some(entry);
                    },
                }
                self.map.insert(handle, s);
                proof {
                    assert(final(self).sessions() =~= old(self).sessions().insert(
                        handle,
                        old(self).sessions()[handle].with_masks(
                            kind,
                            Some(MasksCacheEntry { masks_key: key, width, height, bitmaps }),
                        ),
                    ));
                }
            },
            None => {
                proof {
                    assert(final(self).sessions() =~= old(self).sessions());
                }
            },
        }
    }
}

} // verus!
