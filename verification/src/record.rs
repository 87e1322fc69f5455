//! The managed address-record model: parsed address values, record kinds,
//! and the record type the engine diffs.

use vstd::prelude::*;

verus! {

/// A parsed network address, the semantic identity of a record. An IPv4
/// address is its four octets; an IPv6 address is its eight 16-bit
/// segments, so two textual spellings of the same address (an
/// unabbreviated IPv6 literal and a canonical one, say) are equal here.
#[derive(Clone, Copy, PartialEq, Eq, Structural, Debug)]
pub enum IpValue {
    V4(u8, u8, u8, u8),
    V6(u16, u16, u16, u16, u16, u16, u16, u16),
}

/// The kind of an address record: `V4` for an A record, `V6` for an AAAA
/// record.
#[derive(Clone, Copy, PartialEq, Eq, Structural, Debug)]
pub enum RecordKind {
    V4,
    V6,
}

impl IpValue {
    /// The record kind an address of this family belongs under.
    pub open spec fn spec_kind(self) -> RecordKind {
        match self {
            IpValue::V4(..) => RecordKind::V4,
            IpValue::V6(..) => RecordKind::V6,
        }
    }

    /// Derives the record kind from the address family.
    pub fn kind(&self) -> (k: RecordKind)
        ensures
            k == self.spec_kind(),
    {
        match self {
            IpValue::V4(..) => RecordKind::V4,
            IpValue::V6(..) => RecordKind::V6,
        }
    }
}

impl RecordKind {
    /// The name the remote authority uses on the wire for this kind.
    pub fn wire_name(&self) -> (r: &'static str)
        ensures
            *self == RecordKind::V4 ==> r@ == "A"@,
            *self == RecordKind::V6 ==> r@ == "AAAA"@,
    {
        match self {
            RecordKind::V4 => "A",
            RecordKind::V6 => "AAAA",
        }
    }

    /// Parses a wire-format type name; exactly "A" and "AAAA" are
    /// recognized, anything else is not an address-record kind.
    pub fn from_wire_name(s: &String) -> (k: Option<RecordKind>)
        ensures
            s@ == "A"@ ==> k == Some(RecordKind::V4),
            s@ == "AAAA"@ ==> k == Some(RecordKind::V6),
            s@ != "A"@ && s@ != "AAAA"@ ==> k is None,
    {
        proof {
            reveal_strlit("A");
            reveal_strlit("AAAA");
            assert("A"@.len() == 1);
            assert("AAAA"@.len() == 4);
        }
        let a: String = "A".to_owned();
        let aaaa: String = "AAAA".to_owned();
        if *s == a {
            Some(RecordKind::V4)
        } else if *s == aaaa {
            Some(RecordKind::V6)
        } else {
            None
        }
    }
}

/// One managed DNS entry. Identity for diffing is `(kind, value)` alone;
/// `svalue` is carried data, not identity.
#[derive(Debug)]
pub struct Record {
    /// Parsed address value, the semantic identity used for comparison.
    pub value: IpValue,
    /// V4 (an A record) or V6 (an AAAA record), derived deterministically
    /// from the address family of `value` (see `wf`); both constructors
    /// establish this.
    pub kind: RecordKind,
    /// The remote authority's own textual form of the value. The
    /// authority matches deletions by exact string, so removal must use
    /// this form verbatim; it is empty on locally-synthesized records
    /// and non-empty on records obtained from a remote listing.
    pub svalue: String,
}

impl Record {
    /// Whether the two records are the same address for diffing:
    /// equal `(kind, value)`, with `svalue` ignored.
    pub open spec fn same_address(self, other: Record) -> bool {
        self.kind == other.kind && self.value == other.value
    }

    /// Whether this record carries the handle a remove operation needs.
    /// A record with an empty handle must never be passed to a removal.
    pub open spec fn has_handle(self) -> bool {
        self.svalue@.len() > 0
    }

    /// Well-formedness: the kind agrees with the address family of the
    /// value. Both constructors establish it, and the listing filter
    /// drops remote entries that would break it.
    pub open spec fn wf(self) -> bool {
        self.kind == self.value.spec_kind()
    }

    /// Builds a locally-synthesized desired record for an address: the
    /// kind is derived from the address family and the remote handle is
    /// empty.
    pub fn new(value: &IpValue) -> (r: Record)
        ensures
            r.value == *value,
            r.kind == value.spec_kind(),
            r.svalue@ == Seq::<char>::empty(),
            r.wf(),
    {
        Record { value: *value, kind: value.kind(), svalue: String::new() }
    }

    /// Builds a record as obtained from a remote listing, carrying the
    /// authority's own textual form of the value as the handle; the kind
    /// is derived from the address family, as for every record.
    pub fn from_remote(value: IpValue, svalue: String) -> (r: Record)
        ensures
            r.value == value,
            r.kind == value.spec_kind(),
            r.svalue == svalue,
            r.wf(),
    {
        Record { value, kind: value.kind(), svalue }
    }
}

impl PartialEq for Record {
    /// Equality is diffing identity: `(kind, value)`, never `svalue`.
    fn eq(&self, other: &Record) -> (r: bool) {
        self.kind == other.kind && self.value == other.value
    }
}

impl Eq for Record {
}

impl vstd::std_specs::cmp::PartialEqSpecImpl for Record {
    open spec fn obeys_eq_spec() -> bool {
        true
    }

    open spec fn eq_spec(&self, other: &Record) -> bool {
        self.same_address(*other)
    }
}

/// Two records with the same parsed value compare equal for diffing even
/// when their remote handles differ in textual form.
pub proof fn lemma_identity_ignores_handle(a: Record, b: Record)
    requires
        a.kind == b.kind,
        a.value == b.value,
    ensures
        a.same_address(b),
{
}

/// Filters one entry of a remote listing down to a managed record, as the
/// caller of a remote list operation does per entry. The entry is kept
/// exactly when it names the managed hostname, its type is an
/// address-record type, its value parsed as an address, and that address
/// belongs to the family the type names; the kept record carries the
/// parsed value, the kind derived from it, and the entry's own textual
/// value as the removal handle. Anything else — a foreign or non-address
/// entry, an unparsable value, or a value of the other family than its
/// type claims — is dropped (a recoverable skip, never a failure).
pub fn filter_remote_entry(
    managed_host: &String,
    entry_name: &String,
    entry_type: &String,
    parsed: Option<IpValue>,
    svalue: String,
) -> (r: Option<Record>)
    ensures
        match r {
            Some(rec) => {
                &&& entry_name@ == managed_host@
                &&& (entry_type@ == "A"@ || entry_type@ == "AAAA"@)
                &&& parsed is Some
                &&& rec.value == parsed.unwrap()
                &&& rec.kind == rec.value.spec_kind()
                &&& rec.kind == (if entry_type@ == "A"@ {
                    RecordKind::V4
                } else {
                    RecordKind::V6
                })
                &&& rec.svalue == svalue
                &&& rec.wf()
            },
            None => {
                ||| entry_name@ != managed_host@
                ||| (entry_type@ != "A"@ && entry_type@ != "AAAA"@)
                ||| parsed is None
                ||| parsed.unwrap().spec_kind() != (if entry_type@ == "A"@ {
                    RecordKind::V4
                } else {
                    RecordKind::V6
                })
            },
        },
{
    if !(*entry_name == *managed_host) {
        return None;
    }
    let kind = match RecordKind::from_wire_name(entry_type) {
        Some(k) => k,
        None => {
            return None;
        },
    };
    let value = match parsed {
        Some(v) => v,
        None => {
            return None;
        },
    };
    if value.kind() != kind {
        return None;
    }
    Some(Record { value, kind, svalue })
}

} // verus!
