use crate::bytes::{be16, read_u16_be, read_u8};
use crate::error::MrtError;
use vstd::prelude::*;

verus! {

/// Flag bit that selects a two-byte attribute length.
pub const EXTENDED_LENGTH: u8 = 0x10;

/// One BGP path attribute as it stands on the wire: its flags, its type code,
/// its declared length and exactly that many payload bytes.
#[derive(Debug, PartialEq, Eq)]
pub struct BGPPathAttribute {
    pub flags: u8,
    pub code: u8,
    pub len: u16,
    pub data: Vec<u8>,
}

/// What a path attribute holds, with its payload as a sequence.
pub struct PathAttrModel {
    pub flags: u8,
    pub code: u8,
    pub len: u16,
    pub data: Seq<u8>,
}

impl View for BGPPathAttribute {
    type V = PathAttrModel;

    open spec fn view(&self) -> PathAttrModel {
        PathAttrModel { flags: self.flags, code: self.code, len: self.len, data: self.data@ }
    }
}

impl PathAttrModel {
    /// The payload holds exactly the declared number of bytes.
    pub open spec fn wf(self) -> bool {
        self.data.len() == self.len
    }
}

impl BGPPathAttribute {
    pub open spec fn wf(&self) -> bool {
        self@.wf()
    }
}

/// The views of a sequence of attributes.
pub open spec fn attrs_view(v: Seq<BGPPathAttribute>) -> Seq<PathAttrModel> {
    v.map_values(|a: BGPPathAttribute| a@)
}

pub open spec fn is_extended(flags: u8) -> bool {
    flags & EXTENDED_LENGTH == EXTENDED_LENGTH
}

/// Bytes taken by flags, code and length field.
pub open spec fn attr_header_size(flags: u8) -> nat {
    if is_extended(flags) {
        4
    } else {
        3
    }
}

/// Bytes that an attribute takes on the wire.
pub open spec fn attr_wire_size(a: PathAttrModel) -> nat {
    attr_header_size(a.flags) + a.len as nat
}

/// Bytes that a sequence of attributes takes on the wire.
pub open spec fn attrs_wire_size(attrs: Seq<PathAttrModel>) -> nat
    decreases attrs.len(),
{
    if attrs.len() == 0 {
        0
    } else {
        attr_wire_size(attrs[0]) + attrs_wire_size(attrs.skip(1)) as nat
    }
}

/// The length field at the front of `s`: two bytes big-endian where the
/// extended-length flag is set, else one byte.
pub open spec fn spec_attr_length(s: Seq<u8>, flags: u8) -> Option<u16> {
    if is_extended(flags) {
        if s.len() >= 2 {
            Some(be16(s, 0))
        } else {
            None
        }
    } else {
        if s.len() >= 1 {
            Some(s[0] as u16)
        } else {
            None
        }
    }
}

/// The attribute at the front of `s`, if `s` holds all of it.
pub open spec fn spec_parse_attr(s: Seq<u8>) -> Option<PathAttrModel> {
    if s.len() < 2 {
        None
    } else {
        let flags = s[0];
        match spec_attr_length(s.skip(2), flags) {
            None => None,
            Some(len) => {
                let h = attr_header_size(flags);
                if s.len() < h + len {
                    None
                } else {
                    Some(
                        PathAttrModel {
                            flags,
                            code: s[1],
                            len,
                            data: s.subrange(h as int, h + len),
                        },
                    )
                }
            },
        }
    }
}

/// `front` followed by the attributes of `r`, or the error of `r`.
pub open spec fn prepend_attrs(
    front: Seq<PathAttrModel>,
    r: Result<Seq<PathAttrModel>, MrtError>,
) -> Result<Seq<PathAttrModel>, MrtError> {
    match r {
        Ok(v) => Ok(front + v),
        Err(e) => Err(e),
    }
}

/// The attributes that fill exactly the first `budget` bytes of `s`.
///
/// An attribute that reaches past the end of `s` is `TruncatedAttribute`; one
/// that lies within `s` but reaches past the budget is `AttributeOverrun`.
pub open spec fn spec_parse_attrs(s: Seq<u8>, budget: nat) -> Result<
    Seq<PathAttrModel>,
    MrtError,
>
    decreases budget,
{
    if budget == 0 {
        Ok(Seq::empty())
    } else {
        match spec_parse_attr(s) {
            None => Err(MrtError::TruncatedAttribute),
            Some(a) => {
                let n = attr_wire_size(a);
                if n > budget {
                    Err(MrtError::AttributeOverrun)
                } else {
                    prepend_attrs(seq![a], spec_parse_attrs(s.skip(n as int), (budget - n) as nat))
                }
            },
        }
    }
}

/// Reads the length field of an attribute whose flags are `flags`.
pub fn read_path_attr_length<'a>(input: &'a [u8], flags: u8) -> (r: Result<(&'a [u8], u16), MrtError>)
    ensures
        match spec_attr_length(input@, flags) {
            Some(len) => r matches Ok((rest, l)) && l == len && rest@ == input@.skip(
                attr_header_size(flags) - 2,
            ),
            None => r == Err::<(&'a [u8], u16), MrtError>(MrtError::TruncatedAttribute),
        },
{
    if flags & EXTENDED_LENGTH == EXTENDED_LENGTH {
        if input.len() < 2 {
            return Err(MrtError::TruncatedAttribute);
        }
        Ok((&input[2..input.len()], read_u16_be(input, 0)))
    } else {
        if input.len() < 1 {
            return Err(MrtError::TruncatedAttribute);
        }
        Ok((&input[1..input.len()], read_u8(input, 0) as u16))
    }
}

/// Decodes the attribute at the front of `input`.
pub fn parse_bgp_path_attr<'a>(input: &'a [u8]) -> (r: Result<(&'a [u8], BGPPathAttribute), MrtError>)
    ensures
        match spec_parse_attr(input@) {
            Some(a) => r matches Ok((rest, attr)) && attr@ == a && attr.wf() && rest@ == input@.skip(
                attr_wire_size(a) as int,
            ),
            None => r == Err::<(&'a [u8], BGPPathAttribute), MrtError>(
                MrtError::TruncatedAttribute,
            ),
        },
{
    if input.len() < 2 {
        return Err(MrtError::TruncatedAttribute);
    }
    let flags = read_u8(input, 0);
    let code = read_u8(input, 1);
    let (after_len, len) = match read_path_attr_length(&input[2..input.len()], flags) {
        Ok(v) => v,
        Err(e) => return Err(e),
    };
    if after_len.len() < len as usize {
        return Err(MrtError::TruncatedAttribute);
    }
    let data = vstd::slice::slice_to_vec(&after_len[0..len as usize]);
    let rest = &after_len[len as usize..after_len.len()];
    proof {
        assert(data@ =~= input@.subrange(
            attr_header_size(flags) as int,
            attr_header_size(flags) + len,
        ));
        assert(rest@ =~= input@.skip(attr_header_size(flags) + len));
    }
    Ok((rest, BGPPathAttribute { flags, code, len, data }))
}

/// A decoded run of attributes fills its budget exactly, and the budget lies
/// within the bytes it was decoded from: the header of each attribute and its
/// payload add up to the declared total.
pub proof fn lemma_attrs_fill_budget(s: Seq<u8>, budget: nat)
    ensures
        spec_parse_attrs(s, budget) matches Ok(attrs) ==> attrs_wire_size(attrs) == budget
            && budget <= s.len() && forall|i: int| 0 <= i < attrs.len() ==> (#[trigger] attrs[i]).wf(),
    decreases budget,
{
    if budget > 0 {
        if let Some(a) = spec_parse_attr(s) {
            let n = attr_wire_size(a);
            if n <= budget {
                lemma_attrs_fill_budget(s.skip(n as int), (budget - n) as nat);
                if let Ok(rest) = spec_parse_attrs(s.skip(n as int), (budget - n) as nat) {
                    let attrs = seq![a] + rest;
                    assert(attrs.skip(1) =~= rest);
                    assert forall|i: int| 0 <= i < attrs.len() implies (#[trigger] attrs[i]).wf() by {
                        if i > 0 {
                            assert(attrs[i] == rest[i - 1]);
                        }
                    }
                }
            }
        }
    }
}

/// Decodes the attributes that fill exactly the first `length` bytes of
/// `input`, and hands back the bytes after them.
pub fn parse_bgp_path_attrs<'a>(input: &'a [u8], length: u16) -> (r: Result<
    (&'a [u8], Vec<BGPPathAttribute>),
    MrtError,
>)
    ensures
        match spec_parse_attrs(input@, length as nat) {
            Ok(m) => r matches Ok((rest, v)) && attrs_view(v@) == m && rest@ == input@.skip(
                length as int,
            ) && attrs_wire_size(m) == length && length <= input@.len(),
            Err(e) => r == Err::<(&'a [u8], Vec<BGPPathAttribute>), MrtError>(e),
        },
{
    proof {
        lemma_attrs_fill_budget(input@, length as nat);
    }
    let mut rest = input;
    let mut remaining: u16 = length;
    let mut results: Vec<BGPPathAttribute> = Vec::new();
    // The wire format holds no count of attributes and no end marker: the
    // caller's byte budget alone says where the run ends.
    while remaining > 0
        invariant
            remaining <= length,
            length - remaining <= input@.len(),
            rest@ == input@.skip(length - remaining),
            spec_parse_attrs(input@, length as nat) == prepend_attrs(
                attrs_view(results@),
                spec_parse_attrs(rest@, remaining as nat),
            ),
        decreases remaining,
    {
        let (next, attr) = match parse_bgp_path_attr(rest) {
            Ok(v) => v,
            Err(e) => return Err(e),
        };
        let size = rest.len() - next.len();
        if size > remaining as usize {
            return Err(MrtError::AttributeOverrun);
        }
        proof {
            let a = attr@;
            let tail = spec_parse_attrs(next@, (remaining - size) as nat);
            assert(attrs_view(results@.push(attr)) =~= attrs_view(results@) + seq![a]);
            match tail {
                Ok(t) => {
                    assert(attrs_view(results@) + (seq![a] + t) =~= (attrs_view(results@) + seq![a]) + t);
                },
                Err(_) => {},
            }
            assert(next@ =~= input@.skip(length - remaining + size));
        }
        remaining = remaining - size as u16;
        results.push(attr);
        rest = next;
    }
    proof {
        assert(attrs_view(results@) + Seq::empty() =~= attrs_view(results@));
    }
    Ok((rest, results))
}

/// Where fewer bytes are at hand than the budget, decoding fails with
/// `TruncatedAttribute`.
pub proof fn lemma_short_buffer_truncates(s: Seq<u8>, budget: nat)
    requires
        s.len() < budget,
    ensures
        spec_parse_attrs(s, budget) == Err::<Seq<PathAttrModel>, MrtError>(
            MrtError::TruncatedAttribute,
        ),
    decreases budget,
{
    if let Some(a) = spec_parse_attr(s) {
        let n = attr_wire_size(a);
        lemma_short_buffer_truncates(s.skip(n as int), (budget - n) as nat);
    }
}

/// The wire form of one attribute: flags, code, the length in one byte or,
/// with the extended-length flag, in two bytes big-endian, then the payload.
pub open spec fn encode_attr(a: PathAttrModel) -> Seq<u8> {
    let len_field = if is_extended(a.flags) {
        seq![(a.len / 0x100) as u8, (a.len % 0x100) as u8]
    } else {
        seq![a.len as u8]
    };
    seq![a.flags, a.code] + len_field + a.data
}

/// An attribute has a wire form: its payload has its declared length, and
/// the length fits the field that its flags select.
pub open spec fn encodable(a: PathAttrModel) -> bool {
    a.wf() && (!is_extended(a.flags) ==> a.len < 0x100)
}

/// The wire form of a sequence of attributes, back to back.
pub open spec fn encode_attrs(attrs: Seq<PathAttrModel>) -> Seq<u8>
    decreases attrs.len(),
{
    if attrs.len() == 0 {
        Seq::empty()
    } else {
        encode_attr(attrs[0]) + encode_attrs(attrs.skip(1))
    }
}

/// Attributes written back to back fill a budget of exactly their size, and
/// decoding that budget gives them back, whatever bytes follow.
pub proof fn lemma_attrs_round_trip(attrs: Seq<PathAttrModel>, extra: Seq<u8>)
    requires
        forall|i: int| 0 <= i < attrs.len() ==> encodable(#[trigger] attrs[i]),
    ensures
        encode_attrs(attrs).len() == attrs_wire_size(attrs),
        spec_parse_attrs(encode_attrs(attrs) + extra, attrs_wire_size(attrs)) == Ok::<
            Seq<PathAttrModel>,
            MrtError,
        >(attrs),
    decreases attrs.len(),
{
    if attrs.len() == 0 {
        assert(attrs =~= Seq::<PathAttrModel>::empty());
    } else {
        let a = attrs[0];
        let tail = attrs.skip(1);
        assert forall|i: int| 0 <= i < tail.len() implies encodable(#[trigger] tail[i]) by {
            assert(tail[i] == attrs[i + 1]);
        }
        lemma_attrs_round_trip(tail, extra);
        assert(encodable(a));
        let e = encode_attr(a);
        let s = encode_attrs(attrs) + extra;
        let h = attr_header_size(a.flags);
        assert(s =~= e + (encode_attrs(tail) + extra));
        assert(e.len() == attr_wire_size(a));
        assert(spec_attr_length(s.skip(2), a.flags) == Some(a.len));
        assert(s.subrange(h as int, h + a.len) =~= a.data);
        assert(spec_parse_attr(s) == Some(a));
        assert(s.skip(e.len() as int) =~= encode_attrs(tail) + extra);
        assert(seq![a] + tail =~= attrs);
    }
}

} // verus!
