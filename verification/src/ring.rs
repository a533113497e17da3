//! Bounded single-producer / single-consumer queue of captured WiFi frames.
use vstd::prelude::*;

verus! {

pub const WIFI_RING_SLOTS: usize = 32;
pub const WIFI_SNAP_LEN: usize = 768;

#[derive(Clone, Copy, Debug, PartialEq, Eq, Structural)]
pub struct WifiHdr {
    pub rssi: i8,
    pub channel: u8,
    pub freq_mhz: u16,
    pub is_5ghz: bool,
    pub rate: u8,
    pub ts_ms: u64,
}

#[derive(Clone, Copy, Debug, PartialEq, Eq)]
pub struct WifiSlot {
    pub hdr: WifiHdr,
    pub len: u16,
    pub payload: [u8; WIFI_SNAP_LEN],
}

impl WifiSlot {
    /// A slot with a zero header and no payload.
    pub fn empty() -> (s: Self)
        ensures
            s.len == 0,
            s.hdr == (WifiHdr { rssi: 0, channel: 0, freq_mhz: 0, is_5ghz: false, rate: 0, ts_ms: 0 }),
            s.payload@ == Seq::new(WIFI_SNAP_LEN as nat, |i: int| 0u8),
    {
        let s = WifiSlot {
            hdr: WifiHdr { rssi: 0, channel: 0, freq_mhz: 0, is_5ghz: false, rate: 0, ts_ms: 0 },
            len: 0,
            payload: [0u8; WIFI_SNAP_LEN],
        };
        assert(s.payload@ =~= Seq::new(WIFI_SNAP_LEN as nat, |i: int| 0u8));
        s
    }

    /// The captured bytes.
    pub fn payload(&self) -> (p: &[u8])
        requires
            self.len as usize <= WIFI_SNAP_LEN,
        ensures
            p@ == self.payload@.take(self.len as int),
    {
        let n = self.len as usize;
        let s: &[u8] = &self.payload;
        &s[0..n]
    }
}

#[derive(Debug, Clone, Copy, PartialEq, Eq, Structural)]
pub enum PushOutcome {
    Stored { truncated: bool },
    Full,
}

/// A FIFO of at most `WIFI_RING_SLOTS` frames. A push into a full ring is
/// refused and leaves the queued frames untouched.
pub struct WifiRing {
    slots: Vec<WifiSlot>,
    head: usize,
    count: usize,
}

impl WifiRing {
    /// The ring's shape: 32 slots, a head slot and a count of queued frames.
    pub closed spec fn wf(self) -> bool {
        &&& self.slots@.len() == WIFI_RING_SLOTS
        &&& self.head < WIFI_RING_SLOTS
        &&& self.count <= WIFI_RING_SLOTS
        &&& forall|k: int| 0 <= k < WIFI_RING_SLOTS ==> #[trigger] self.slots@[k].len <= WIFI_SNAP_LEN
    }

    /// The queued frames, oldest first.
    pub closed spec fn frames(self) -> Seq<WifiSlot> {
        Seq::new(self.count as nat, |k: int| self.slots@[(self.head + k) % (WIFI_RING_SLOTS as int)])
    }

    pub fn new() -> (r: Self)
        ensures
            r.wf(),
            r.frames().len() == 0,
    {
        let mut slots: Vec<WifiSlot> = Vec::new();
        let mut i: usize = 0;
        while i < WIFI_RING_SLOTS
            invariant
                i <= WIFI_RING_SLOTS,
                slots@.len() == i,
                forall|k: int| 0 <= k < i ==> #[trigger] slots@[k].len == 0,
            decreases WIFI_RING_SLOTS - i,
        {
            slots.push(WifiSlot::empty());
            i += 1;
        }
        WifiRing { slots, head: 0, count: 0 }
    }

    /// Number of queued frames.
    pub fn len(&self) -> (n: usize)
        requires
            self.wf(),
        ensures
            n == self.frames().len(),
            n <= WIFI_RING_SLOTS,
    {
        self.count
    }

    /// Queues a frame: the header and the first `min(src.len(), sig_len,
    /// WIFI_SNAP_LEN)` bytes of `src`. Reports whether fewer than `sig_len`
    /// bytes were kept. A full ring refuses the frame.
    pub fn try_push(&mut self, hdr: WifiHdr, src: &[u8], sig_len: usize) -> (r: PushOutcome)
        requires
            old(self).wf(),
        ensures
            final(self).wf(),
            old(self).frames().len() == WIFI_RING_SLOTS ==> r == PushOutcome::Full && final(self).frames() == old(self).frames(),
            old(self).frames().len() < WIFI_RING_SLOTS ==> ({
                let copy = min3(src@.len() as int, sig_len as int, WIFI_SNAP_LEN as int);
                let f = final(self).frames();
                &&& r == PushOutcome::Stored { truncated: copy < sig_len }
                &&& f.len() == old(self).frames().len() + 1
                &&& f.take(f.len() - 1) == old(self).frames()
                &&& f.last().hdr == hdr
                &&& f.last().len == copy
                &&& f.last().payload@.take(copy) == src@.take(copy)
            }),
    {
        if self.count >= WIFI_RING_SLOTS {
            return PushOutcome::Full;
        }
        let a = if src.len() <= sig_len {
            src.len()
        } else {
            sig_len
        };
        let copy = if a <= WIFI_SNAP_LEN {
            a
        } else {
            WIFI_SNAP_LEN
        };
        let mut payload = [0u8; WIFI_SNAP_LEN];
        let mut i: usize = 0;
        while i < copy
            invariant
                i <= copy <= WIFI_SNAP_LEN,
                copy <= src@.len(),
                forall|k: int| 0 <= k < i ==> payload@[k] == src@[k],
            decreases copy - i,
        {
            payload[i] = src[i];
            i += 1;
        }
        let slot = WifiSlot { hdr, len: copy as u16, payload };
        assert(slot.payload@.take(copy as int) =~= src@.take(copy as int));
        let idx = (self.head + self.count) % WIFI_RING_SLOTS;
        let ghost old_frames = self.frames();
        self.slots.set(idx, slot);
        self.count = self.count + 1;
        assert(self.frames().take(self.frames().len() - 1) =~= old_frames);
        PushOutcome::Stored { truncated: copy < sig_len }
    }

    /// Takes the oldest queued frame.
    pub fn try_pop(&mut self) -> (r: Option<WifiSlot>)
        requires
            old(self).wf(),
        ensures
            final(self).wf(),
            old(self).frames().len() == 0 ==> r is None && final(self).frames() == old(self).frames(),
            old(self).frames().len() > 0 ==> r == Some(old(self).frames()[0]) && final(self).frames()
                == old(self).frames().drop_first(),
            r matches Some(s) ==> s.len <= WIFI_SNAP_LEN,
    {
        if self.count == 0 {
            return None;
        }
        let slot = self.slots[self.head];
        let ghost old_frames = self.frames();
        self.head = (self.head + 1) % WIFI_RING_SLOTS;
        self.count = self.count - 1;
        assert forall|k: int| 0 <= k < self.count implies #[trigger] self.frames()[k] == old_frames[k + 1] by {
            assert((old(self).head + k + 1) % (WIFI_RING_SLOTS as int) == ((old(self).head + 1) % (WIFI_RING_SLOTS as int) + k) % (WIFI_RING_SLOTS as int));
        }
        assert(self.frames() =~= old_frames.drop_first());
        Some(slot)
    }
}

impl Default for WifiRing {
    fn default() -> (r: Self)
        ensures
            r.wf(),
            r.frames().len() == 0,
    {
        WifiRing::new()
    }
}

pub open spec fn min3(a: int, b: int, c: int) -> int {
    let m = if a <= b {
        a
    } else {
        b
    };
    if m <= c {
        m
    } else {
        c
    }
}

} // verus!
