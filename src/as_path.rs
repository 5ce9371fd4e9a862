use crate::bytes::{be16, be32, read_u16_be, read_u32_be, read_u8};
use crate::error::MrtError;
use vstd::prelude::*;

verus! {

/// How the members of a segment are to be read.
#[derive(Debug, Clone, Copy, PartialEq, Eq, Structural)]
pub enum SegmentKind {
    /// Type 1: an unordered set of AS numbers.
    AsSet,
    /// Type 2: an ordered sequence of AS numbers.
    AsSequence,
    /// Any other type byte; such a segment is kept, empty, and decoding goes on
    /// with the next byte.
    Unknown(u8),
}

/// How many bytes each AS number takes.
#[derive(Debug, Clone, Copy, PartialEq, Eq, Structural)]
pub enum AsnWidth {
    Two,
    Four,
}

/// One segment of an AS_PATH attribute, its members in wire order.
#[derive(Debug, PartialEq, Eq)]
pub struct AsPathSegment {
    pub kind: SegmentKind,
    pub asns: Vec<u32>,
}

pub struct SegmentModel {
    pub kind: SegmentKind,
    pub asns: Seq<u32>,
}

impl View for AsPathSegment {
    type V = SegmentModel;

    open spec fn view(&self) -> SegmentModel {
        SegmentModel { kind: self.kind, asns: self.asns@ }
    }
}

pub open spec fn segments_view(v: Seq<AsPathSegment>) -> Seq<SegmentModel> {
    v.map_values(|g: AsPathSegment| g@)
}

pub open spec fn asn_size(w: AsnWidth) -> nat {
    match w {
        AsnWidth::Two => 2,
        AsnWidth::Four => 4,
    }
}

/// The AS number whose bytes start at `i`.
pub open spec fn asn_at(s: Seq<u8>, i: int, w: AsnWidth) -> u32 {
    match w {
        AsnWidth::Two => be16(s, i) as u32,
        AsnWidth::Four => be32(s, i),
    }
}

pub open spec fn spec_segment_kind(t: u8) -> SegmentKind {
    if t == 1 {
        SegmentKind::AsSet
    } else if t == 2 {
        SegmentKind::AsSequence
    } else {
        SegmentKind::Unknown(t)
    }
}

/// The segment at the front of `s`, and the bytes it takes: a type byte, a
/// count of members, then the members. A segment of unknown type takes its
/// type byte alone.
pub open spec fn spec_parse_segment(s: Seq<u8>, w: AsnWidth) -> Option<(SegmentModel, nat)> {
    if s.len() == 0 {
        None
    } else if spec_segment_kind(s[0]) is Unknown {
        Some((SegmentModel { kind: spec_segment_kind(s[0]), asns: Seq::empty() }, 1))
    } else if s.len() < 2 {
        None
    } else {
        let count = s[1] as nat;
        let n = 2 + count * asn_size(w);
        if s.len() < n {
            None
        } else {
            Some(
                (
                    SegmentModel {
                        kind: spec_segment_kind(s[0]),
                        asns: Seq::new(count, |j: int| asn_at(s, 2 + j * asn_size(w), w)),
                    },
                    n as nat,
                ),
            )
        }
    }
}

/// The segments of an AS_PATH payload, back to back until it ends.
pub open spec fn spec_parse_as_path(s: Seq<u8>, w: AsnWidth) -> Option<Seq<SegmentModel>>
    decreases s.len(),
{
    if s.len() == 0 {
        Some(Seq::empty())
    } else {
        match spec_parse_segment(s, w) {
            None => None,
            Some((g, n)) => match spec_parse_as_path(s.skip(n as int), w) {
                None => None,
                Some(rest) => Some(seq![g] + rest),
            },
        }
    }
}

pub open spec fn prepend_segments(front: Seq<SegmentModel>, r: Option<Seq<SegmentModel>>) -> Option<
    Seq<SegmentModel>,
> {
    match r {
        Some(v) => Some(front + v),
        None => None,
    }
}

/// The bytes that one segment of `count` members takes.
proof fn lemma_segment_size(count: nat, j: nat, w: AsnWidth)
    requires
        j < count,
        count < 0x100,
    ensures
        2 + j * asn_size(w) + asn_size(w) <= 2 + count * asn_size(w),
        2 + count * asn_size(w) <= 2 + 0xff * 4,
        (j + 1) * asn_size(w) == j * asn_size(w) + asn_size(w),
{
    let k = asn_size(w);
    assert(k <= 4);
    assert(j * k + k <= count * k) by (nonlinear_arith)
        requires
            j < count,
    ;
    assert(count * k <= 0xff * 4) by (nonlinear_arith)
        requires
            count < 0x100,
            k <= 4,
    ;
    assert((j + 1) * k == j * k + k) by (nonlinear_arith);
}

/// Decodes the segment at the front of `input`.
pub fn parse_as_path_segment<'a>(input: &'a [u8], width: AsnWidth) -> (r: Result<
    (&'a [u8], AsPathSegment),
    MrtError,
>)
    ensures
        match spec_parse_segment(input@, width) {
            Some((g, n)) => r matches Ok((rest, seg)) && seg@ == g && n <= input@.len()
                && rest@ == input@.skip(n as int),
            None => r == Err::<(&'a [u8], AsPathSegment), MrtError>(MrtError::TruncatedAttribute),
        },
{
    if input.len() == 0 {
        return Err(MrtError::TruncatedAttribute);
    }
    let t = read_u8(input, 0);
    let kind = if t == 1 {
        SegmentKind::AsSet
    } else if t == 2 {
        SegmentKind::AsSequence
    } else {
        SegmentKind::Unknown(t)
    };
    if let SegmentKind::Unknown(_) = kind {
        return Ok((&input[1..input.len()], AsPathSegment { kind, asns: Vec::new() }));
    }
    if input.len() < 2 {
        return Err(MrtError::TruncatedAttribute);
    }
    let count = read_u8(input, 1);
    let step: usize = match width {
        AsnWidth::Two => 2,
        AsnWidth::Four => 4,
    };
    proof {
        if count > 0 {
            lemma_segment_size(count as nat, 0, width);
        }
    }
    let n: usize = 2 + count as usize * step;
    if input.len() < n {
        return Err(MrtError::TruncatedAttribute);
    }
    let mut asns: Vec<u32> = Vec::new();
    let mut pos: usize = 2;
    let mut j: u8 = 0;
    while j < count
        invariant
            j <= count,
            step == asn_size(width),
            n == 2 + count * asn_size(width),
            n <= input@.len(),
            pos == 2 + j * asn_size(width),
            asns@ =~= Seq::new(j as nat, |k: int| asn_at(input@, 2 + k * asn_size(width), width)),
        decreases count - j,
    {
        proof {
            lemma_segment_size(count as nat, j as nat, width);
        }
        let asn = match width {
            AsnWidth::Two => read_u16_be(input, pos) as u32,
            AsnWidth::Four => read_u32_be(input, pos),
        };
        asns.push(asn);
        pos = pos + step;
        j = j + 1;
    }
    proof {
        assert(input@.subrange(n as int, input@.len() as int) =~= input@.skip(n as int));
    }
    Ok((&input[n..input.len()], AsPathSegment { kind, asns }))
}

/// Decodes the segments of an AS_PATH payload whose AS numbers take `width`
/// bytes each.
pub fn parse_as_path_with_width(payload: &[u8], width: AsnWidth) -> (r: Result<
    Vec<AsPathSegment>,
    MrtError,
>)
    ensures
        match spec_parse_as_path(payload@, width) {
            Some(m) => r matches Ok(v) && segments_view(v@) == m,
            None => r == Err::<Vec<AsPathSegment>, MrtError>(MrtError::TruncatedAttribute),
        },
{
    let mut rest = payload;
    let mut segments: Vec<AsPathSegment> = Vec::new();
    while rest.len() > 0
        invariant
            spec_parse_as_path(payload@, width) == prepend_segments(
                segments_view(segments@),
                spec_parse_as_path(rest@, width),
            ),
        decreases rest@.len(),
    {
        let (next, seg) = match parse_as_path_segment(rest, width) {
            Ok(v) => v,
            Err(e) => return Err(e),
        };
        proof {
            let g = seg@;
            assert(segments_view(segments@.push(seg)) =~= segments_view(segments@) + seq![g]);
            match spec_parse_as_path(next@, width) {
                Some(t) => {
                    assert(segments_view(segments@) + (seq![g] + t) =~= (segments_view(segments@)
                        + seq![g]) + t);
                },
                None => {},
            }
        }
        segments.push(seg);
        rest = next;
    }
    proof {
        assert(segments_view(segments@) + Seq::empty() =~= segments_view(segments@));
    }
    Ok(segments)
}

/// Decodes the segments of an AS_PATH payload with four-byte AS numbers.
pub fn parse_as_path(payload: &[u8]) -> (r: Result<Vec<AsPathSegment>, MrtError>)
    ensures
        match spec_parse_as_path(payload@, AsnWidth::Four) {
            Some(m) => r matches Ok(v) && segments_view(v@) == m,
            None => r == Err::<Vec<AsPathSegment>, MrtError>(MrtError::TruncatedAttribute),
        },
{
    parse_as_path_with_width(payload, AsnWidth::Four)
}

} // verus!
