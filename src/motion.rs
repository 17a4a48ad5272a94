//! Motion packs: the header read from the scene index, written back in front
//! of the raw payload.
use vstd::prelude::*;

use crate::bytes::{be_u32, i32_be, lemma_subrange_split, push_i32, push_range, push_u32, u32_be};
use crate::reader::{take_bytes, take_i32, take_u32};

verus! {

/// A length-prefixed bone name.
#[derive(Clone, Debug)]
pub struct MotionPackString {
    pub len: u32,
    pub bone_name: Vec<u8>,
}

/// The header of a motion pack. The two trailing fields are present on disk
/// only for version -8 and are never written back.
#[derive(Clone, Debug)]
pub struct StreamingMotionPackHeader {
    pub version: i32,
    pub motion_type: i32,
    pub frame_count: u32,
    pub object_count: u32,
    pub bone_targets: Vec<MotionPackString>,
    pub duration: u32,
    pub rotation_type: u32,
    pub position_type: u32,
    pub num_positions: u32,
    pub num_rotations: u32,
    pub num_camera_infos: u32,
    pub padding: u32,
    pub unk_bpb_size: u32,
    pub unk_bpb: Vec<u8>,
}

pub open spec fn bone_targets_bytes(ts: Seq<MotionPackString>) -> Seq<u8>
    decreases ts.len(),
{
    if ts.len() == 0 {
        seq![]
    } else {
        bone_targets_bytes(ts.drop_last()) + u32_be(ts.last().len) + ts.last().bone_name@
    }
}

/// Where `n` length-prefixed bone names laid one after the other from `pos` end.
pub open spec fn targets_end(data: Seq<u8>, pos: int, n: nat) -> Option<int>
    decreases n,
{
    if n == 0 {
        Some(pos)
    } else if pos + 4 > data.len() || pos + 4 + be_u32(data, pos) > data.len() {
        None
    } else {
        targets_end(data, pos + 4 + be_u32(data, pos), (n - 1) as nat)
    }
}

/// Where a motion pack header that starts at `pos` ends, if the bytes hold
/// one: four fields, the bone names, seven fields, and for version -8 a
/// length-prefixed block.
pub open spec fn motion_end(data: Seq<u8>, pos: int) -> Option<int> {
    if pos + 16 > data.len() {
        None
    } else {
        match targets_end(data, pos + 16, be_u32(data, pos + 12) as nat) {
            None => None,
            Some(t) => if t + 28 > data.len() {
                None
            } else if be_u32(data, pos) as i32 != -8 {
                Some(t + 28)
            } else if t + 32 > data.len() || t + 32 + be_u32(data, t + 28) > data.len() {
                None
            } else {
                Some(t + 32 + be_u32(data, t + 28))
            },
        }
    }
}

fn parse_targets(data: &[u8], pos: usize, n: u32) -> (r: Option<(Vec<MotionPackString>, usize)>)
    requires
        pos <= data@.len(),
    ensures
        r is Some <==> targets_end(data@, pos as int, n as nat) is Some,
        r matches Some((ts, end)) ==> targets_end(data@, pos as int, n as nat) == Some(end as int)
            && pos <= end <= data@.len() && ts@.len() == n && data@.subrange(pos as int, end as int)
            == bone_targets_bytes(ts@),
{
    let len = data.len();
    let mut p: usize = pos;
    let mut ts: Vec<MotionPackString> = Vec::new();
    let mut i: u32 = 0;
    assert(data@.subrange(pos as int, pos as int) =~= Seq::<u8>::empty());
    while i < n
        invariant
            len == data@.len(),
            pos <= p <= len,
            i <= n,
            targets_end(data@, pos as int, n as nat) == targets_end(data@, p as int, (n - i) as nat),
            ts@.len() == i,
            data@.subrange(pos as int, p as int) == bone_targets_bytes(ts@),
        decreases n - i,
    {
        if len - p < 4 {
            return None;
        }
        let k = take_u32(data, p, Ghost(pos as int));
        if ((len - p - 4) as u64) < k as u64 {
            return None;
        }
        let bone_name = take_bytes(data, p + 4, k as usize, Ghost(pos as int));
        let ghost before = ts@;
        ts.push(MotionPackString { len: k, bone_name });
        assert(ts@.drop_last() =~= before);
        p = p + 4 + k as usize;
        i = i + 1;
    }
    Some((ts, p))
}

/// The header as the motion file holds it.
pub open spec fn motion_header_bytes(h: StreamingMotionPackHeader) -> Seq<u8> {
    motion_lead_bytes(h) + bone_targets_bytes(h.bone_targets@) + motion_trail_bytes(h)
}

pub open spec fn motion_lead_bytes(h: StreamingMotionPackHeader) -> Seq<u8> {
    i32_be(h.version) + i32_be(h.motion_type) + u32_be(h.frame_count) + u32_be(h.object_count)
}

pub open spec fn motion_trail_bytes(h: StreamingMotionPackHeader) -> Seq<u8> {
    u32_be(h.duration) + u32_be(h.rotation_type) + u32_be(h.position_type) + u32_be(
        h.num_positions,
    ) + u32_be(h.num_rotations) + u32_be(h.num_camera_infos) + u32_be(h.padding)
}

impl StreamingMotionPackHeader {
    /// The motion file: this header followed by the payload as it is.
    pub fn write(&self, payload: &[u8]) -> (r: Vec<u8>)
        ensures
            r@ == motion_header_bytes(*self) + payload@,
    {
        let mut out: Vec<u8> = Vec::new();
        push_i32(&mut out, self.version);
        push_i32(&mut out, self.motion_type);
        push_u32(&mut out, self.frame_count);
        push_u32(&mut out, self.object_count);
        let ghost o1 = out@;
        let mut i: usize = 0;
        while i < self.bone_targets.len()
            invariant
                i <= self.bone_targets@.len(),
                out@ == o1 + bone_targets_bytes(self.bone_targets@.subrange(0, i as int)),
            decreases self.bone_targets@.len() - i,
        {
            let t = &self.bone_targets[i];
            push_u32(&mut out, t.len);
            push_range(&mut out, t.bone_name.as_slice(), 0, t.bone_name.len());
            assert(t.bone_name@.subrange(0, t.bone_name@.len() as int) =~= t.bone_name@);
            assert(self.bone_targets@.subrange(0, i + 1).drop_last() =~= self.bone_targets@.subrange(0, i as int));
            assert(out@ =~= o1 + bone_targets_bytes(self.bone_targets@.subrange(0, i + 1)));
            i = i + 1;
        }
        assert(self.bone_targets@.subrange(0, self.bone_targets@.len() as int) =~= self.bone_targets@);
        push_u32(&mut out, self.duration);
        push_u32(&mut out, self.rotation_type);
        push_u32(&mut out, self.position_type);
        push_u32(&mut out, self.num_positions);
        push_u32(&mut out, self.num_rotations);
        push_u32(&mut out, self.num_camera_infos);
        push_u32(&mut out, self.padding);
        push_range(&mut out, payload, 0, payload.len());
        assert(payload@.subrange(0, payload@.len() as int) =~= payload@);
        assert(out@ =~= motion_lead_bytes(*self) + bone_targets_bytes(self.bone_targets@) + motion_trail_bytes(*self) + payload@);
        out
    }
}

/// The header as the scene index holds it: the trailing fields are there
/// only for version -8.
pub open spec fn motion_index_bytes(h: StreamingMotionPackHeader) -> Seq<u8> {
    motion_header_bytes(h) + if h.version == -8 {
        u32_be(h.unk_bpb_size) + h.unk_bpb@
    } else {
        seq![]
    }
}

impl StreamingMotionPackHeader {
    /// Reads a motion pack header from the scene index at `pos`.
    pub fn parse(data: &[u8], pos: usize) -> (r: Option<(StreamingMotionPackHeader, usize)>)
        ensures
            r is Some <==> motion_end(data@, pos as int) is Some,
            r matches Some((h, end)) ==> pos <= end <= data@.len() && motion_end(data@, pos as int)
                == Some(end as int) && h.bone_targets@.len() == h.object_count && data@.subrange(
                pos as int,
                end as int,
            ) == motion_index_bytes(h),
    {
        let len = data.len();
        if pos > len || len - pos < 16 {
            return None;
        }
        let ghost s = pos as int;
        assert(data@.subrange(s, s) =~= Seq::<u8>::empty());
        let version = take_i32(data, pos, Ghost(s));
        let motion_type = take_i32(data, pos + 4, Ghost(s));
        let frame_count = take_u32(data, pos + 8, Ghost(s));
        let object_count = take_u32(data, pos + 12, Ghost(s));
        let t0: usize = pos + 16;
        let (bone_targets, t1) = match parse_targets(data, t0, object_count) {
            Some(found) => found,
            None => {
                return None;
            },
        };
        if len - t1 < 28 {
            return None;
        }
        let ghost u = t1 as int;
        assert(data@.subrange(u, u) =~= Seq::<u8>::empty());
        let duration = take_u32(data, t1, Ghost(u));
        let rotation_type = take_u32(data, t1 + 4, Ghost(u));
        let position_type = take_u32(data, t1 + 8, Ghost(u));
        let num_positions = take_u32(data, t1 + 12, Ghost(u));
        let num_rotations = take_u32(data, t1 + 16, Ghost(u));
        let num_camera_infos = take_u32(data, t1 + 20, Ghost(u));
        let padding = take_u32(data, t1 + 24, Ghost(u));
        let t2: usize = t1 + 28;
        let mut unk_bpb_size: u32 = 0;
        let mut unk_bpb: Vec<u8> = Vec::new();
        let mut end: usize = t2;
        if version == -8 {
            if len - t2 < 4 {
                return None;
            }
            unk_bpb_size = take_u32(data, t2, Ghost(t2 as int));
            if ((len - t2 - 4) as u64) < unk_bpb_size as u64 {
                return None;
            }
            unk_bpb = take_bytes(data, t2 + 4, unk_bpb_size as usize, Ghost(t2 as int));
            end = t2 + 4 + unk_bpb_size as usize;
            assert(data@.subrange(t2 as int, t2 as int) =~= Seq::<u8>::empty());
        }
        let h = StreamingMotionPackHeader {
            version,
            motion_type,
            frame_count,
            object_count,
            bone_targets,
            duration,
            rotation_type,
            position_type,
            num_positions,
            num_rotations,
            num_camera_infos,
            padding,
            unk_bpb_size,
            unk_bpb,
        };
        proof {
            assert(data@.subrange(t2 as int, end as int) =~= if h.version == -8 {
                u32_be(h.unk_bpb_size) + h.unk_bpb@
            } else {
                Seq::<u8>::empty()
            });
            assert(data@.subrange(s, t0 as int) =~= motion_lead_bytes(h));
            assert(data@.subrange(t1 as int, t2 as int) =~= motion_trail_bytes(h));
            lemma_subrange_split(data@, s, t0 as int, t1 as int);
            lemma_subrange_split(data@, s, t1 as int, t2 as int);
            lemma_subrange_split(data@, s, t2 as int, end as int);
        }
        Some((h, end))
    }
}

} // verus!
