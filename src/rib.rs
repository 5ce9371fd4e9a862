use crate::bgp::{
    attrs_view, attrs_wire_size, lemma_attrs_fill_budget, parse_bgp_path_attrs, spec_parse_attrs,
    BGPPathAttribute, PathAttrModel,
};
use crate::bytes::{be16, be32, read_u16_be, read_u32_be};
use crate::error::MrtError;
use vstd::prelude::*;

verus! {

/// Bytes before the attributes of a RIB entry: peer index, originated time
/// and attribute length.
pub const RIB_ENTRY_HEADER_LEN: usize = 8;

/// One route of a RIB record, as one peer announced it.
#[derive(Debug, PartialEq, Eq)]
pub struct RibEntry {
    pub peer_index: u16,
    pub originated_timestamp: u32,
    pub attr_length: u16,
    pub bgp_path_attrs: Vec<BGPPathAttribute>,
}

pub struct RibEntryModel {
    pub peer_index: u16,
    pub originated_timestamp: u32,
    pub attr_length: u16,
    pub attrs: Seq<PathAttrModel>,
}

impl View for RibEntry {
    type V = RibEntryModel;

    open spec fn view(&self) -> RibEntryModel {
        RibEntryModel {
            peer_index: self.peer_index,
            originated_timestamp: self.originated_timestamp,
            attr_length: self.attr_length,
            attrs: attrs_view(self.bgp_path_attrs@),
        }
    }
}

impl RibEntryModel {
    /// The attributes take exactly `attr_length` bytes on the wire, and each
    /// holds its declared number of payload bytes.
    pub open spec fn wf(self) -> bool {
        &&& attrs_wire_size(self.attrs) == self.attr_length
        &&& forall|i: int| 0 <= i < self.attrs.len() ==> (#[trigger] self.attrs[i]).wf()
    }
}

pub open spec fn rib_entries_view(v: Seq<RibEntry>) -> Seq<RibEntryModel> {
    v.map_values(|e: RibEntry| e@)
}

/// The RIB entry at the front of `s`, and the bytes it takes.
pub open spec fn spec_parse_rib_entry(s: Seq<u8>) -> Result<(RibEntryModel, nat), MrtError> {
    if s.len() < RIB_ENTRY_HEADER_LEN {
        Err(MrtError::TruncatedInput)
    } else {
        let attr_length = be16(s, 6);
        match spec_parse_attrs(s.skip(RIB_ENTRY_HEADER_LEN as int), attr_length as nat) {
            Err(e) => Err(e),
            Ok(attrs) => Ok(
                (
                    RibEntryModel {
                        peer_index: be16(s, 0),
                        originated_timestamp: be32(s, 2),
                        attr_length,
                        attrs,
                    },
                    (RIB_ENTRY_HEADER_LEN + attr_length) as nat,
                ),
            ),
        }
    }
}

/// The attributes of a decoded RIB entry account for its attribute length
/// exactly: the headers of the attributes and their payloads add up to it.
pub proof fn lemma_rib_entry_accounts_for_attr_length(s: Seq<u8>)
    ensures
        spec_parse_rib_entry(s) matches Ok((m, n)) ==> m.wf() && n == RIB_ENTRY_HEADER_LEN
            + m.attr_length && n <= s.len(),
{
    if s.len() >= RIB_ENTRY_HEADER_LEN {
        lemma_attrs_fill_budget(s.skip(RIB_ENTRY_HEADER_LEN as int), be16(s, 6) as nat);
    }
}

/// Decodes the RIB entry at the front of `input`; its attributes fill exactly
/// the entry's own attribute length.
pub fn parse_rib_entry<'a>(input: &'a [u8]) -> (r: Result<(&'a [u8], RibEntry), MrtError>)
    ensures
        match spec_parse_rib_entry(input@) {
            Ok((m, n)) => r matches Ok((rest, e)) && e@ == m && m.wf() && rest@ == input@.skip(
                n as int,
            ),
            Err(er) => r == Err::<(&'a [u8], RibEntry), MrtError>(er),
        },
{
    proof {
        lemma_rib_entry_accounts_for_attr_length(input@);
    }
    if input.len() < RIB_ENTRY_HEADER_LEN {
        return Err(MrtError::TruncatedInput);
    }
    let peer_index = read_u16_be(input, 0);
    let originated_timestamp = read_u32_be(input, 2);
    let attr_length = read_u16_be(input, 6);
    let after = &input[RIB_ENTRY_HEADER_LEN..input.len()];
    let (rest, bgp_path_attrs) = match parse_bgp_path_attrs(after, attr_length) {
        Ok(v) => v,
        Err(e) => return Err(e),
    };
    proof {
        assert(rest@ =~= input@.skip(RIB_ENTRY_HEADER_LEN + attr_length));
    }
    Ok((rest, RibEntry { peer_index, originated_timestamp, attr_length, bgp_path_attrs }))
}

/// `count` RIB entries back to back at the front of `s`, and the bytes they
/// take.
pub open spec fn spec_parse_rib_entries(s: Seq<u8>, count: nat) -> Result<
    (Seq<RibEntryModel>, nat),
    MrtError,
>
    decreases count,
{
    if count == 0 {
        Ok((Seq::empty(), 0))
    } else {
        match spec_parse_rib_entry(s) {
            Err(e) => Err(e),
            Ok((m, n)) => match spec_parse_rib_entries(s.skip(n as int), (count - 1) as nat) {
                Err(e) => Err(e),
                Ok((rest, k)) => Ok((seq![m] + rest, n + k)),
            },
        }
    }
}

/// `front` and `used` bytes before the entries and the byte count of `r`.
pub open spec fn prepend_entries(
    front: Seq<RibEntryModel>,
    used: nat,
    r: Result<(Seq<RibEntryModel>, nat), MrtError>,
) -> Result<(Seq<RibEntryModel>, nat), MrtError> {
    match r {
        Ok((v, k)) => Ok((front + v, used + k)),
        Err(e) => Err(e),
    }
}

/// Decodes `entry_count` RIB entries back to back.
pub fn parse_rib_entries<'a>(input: &'a [u8], entry_count: u16) -> (r: Result<
    (&'a [u8], Vec<RibEntry>),
    MrtError,
>)
    ensures
        match spec_parse_rib_entries(input@, entry_count as nat) {
            Ok((ms, n)) => r matches Ok((rest, v)) && rib_entries_view(v@) == ms && n
                <= input@.len() && rest@ == input@.skip(n as int),
            Err(e) => r == Err::<(&'a [u8], Vec<RibEntry>), MrtError>(e),
        },
{
    let mut rest = input;
    let mut entries: Vec<RibEntry> = Vec::new();
    let mut k: u16 = 0;
    while k < entry_count
        invariant
            k <= entry_count,
            rest@.len() <= input@.len(),
            rest@ == input@.skip(input@.len() - rest@.len()),
            spec_parse_rib_entries(input@, entry_count as nat) == prepend_entries(
                rib_entries_view(entries@),
                (input@.len() - rest@.len()) as nat,
                spec_parse_rib_entries(rest@, (entry_count - k) as nat),
            ),
        decreases entry_count - k,
    {
        let (next, entry) = match parse_rib_entry(rest) {
            Ok(v) => v,
            Err(e) => return Err(e),
        };
        proof {
            lemma_rib_entry_accounts_for_attr_length(rest@);
            let m = entry@;
            assert(rib_entries_view(entries@.push(entry)) =~= rib_entries_view(entries@) + seq![m]);
            match spec_parse_rib_entries(next@, (entry_count - k - 1) as nat) {
                Ok((t, _)) => {
                    assert(rib_entries_view(entries@) + (seq![m] + t) =~= (rib_entries_view(
                        entries@,
                    ) + seq![m]) + t);
                },
                Err(_) => {},
            }
            assert(next@ =~= input@.skip(input@.len() - next@.len()));
        }
        entries.push(entry);
        rest = next;
        k = k + 1;
    }
    proof {
        assert(rib_entries_view(entries@) + Seq::empty() =~= rib_entries_view(entries@));
    }
    Ok((rest, entries))
}

} // verus!
