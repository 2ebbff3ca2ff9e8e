use vstd::prelude::*;

use crate::cbor::{
    parse_head, parse_string, parse_uint, read_head, read_string, read_uint, MAJOR_ARRAY,
    MAJOR_BYTES, MAJOR_TEXT,
};
use crate::error::{ArgumentError, DecodeError, RuleViolation};
use crate::utf8::{is_valid_utf8, valid_utf8};

verus! {

/// Flag bit: index the entry's key.
pub const FLAG_INDEXED_KEY: u64 = 1;

/// Flag bit: index the entry's value.
pub const FLAG_INDEXED_VALUE: u64 = 2;

/// Every flag bit that is defined.
pub const FLAG_MASK: u64 = 3;

/// The most entries one event may hold.
pub const MAX_ENTRIES: usize = 255;

/// The longest key, in bytes.
pub const MAX_KEY_LEN: usize = 31;

/// Tag of an integer value: one to eight big-endian bytes.
pub const KIND_INTEGER: u64 = 0;

/// Tag of a byte string value.
pub const KIND_BYTES: u64 = 1;

/// Tag of a text string value: well-formed UTF-8.
pub const KIND_TEXT: u64 = 2;

/// Tag of a boolean value: one byte, 0 or 1.
pub const KIND_BOOLEAN: u64 = 3;

/// One key/value entry of an event, as plain values.
pub struct EntryView {
    pub flags: nat,
    pub key: Seq<u8>,
    pub kind: nat,
    pub value: Seq<u8>,
}

/// One key/value entry of an event.
#[derive(Debug, Clone, PartialEq, Eq)]
pub struct Entry {
    /// Indexing hints: `FLAG_INDEXED_KEY`, `FLAG_INDEXED_VALUE`.
    pub flags: u64,
    pub key: Vec<u8>,
    /// The value kind tag.
    pub kind: u64,
    pub value: Vec<u8>,
}

impl View for Entry {
    type V = EntryView;

    open spec fn view(&self) -> EntryView {
        EntryView {
            flags: self.flags as nat,
            key: self.key@,
            kind: self.kind as nat,
            value: self.value@,
        }
    }
}

/// The kinds that a value may have.
#[derive(Debug, Clone, Copy, PartialEq, Eq, Structural)]
pub enum ValueKind {
    Integer,
    Bytes,
    Text,
    Boolean,
}

/// The kind that a tag names, if any.
pub open spec fn kind_of(tag: nat) -> Option<ValueKind> {
    if tag == KIND_INTEGER {
        Some(ValueKind::Integer)
    } else if tag == KIND_BYTES {
        Some(ValueKind::Bytes)
    } else if tag == KIND_TEXT {
        Some(ValueKind::Text)
    } else if tag == KIND_BOOLEAN {
        Some(ValueKind::Boolean)
    } else {
        None
    }
}

impl Entry {
    /// The kind of the value, or `None` for a tag outside the permitted set.
    pub fn value_kind(&self) -> (r: Option<ValueKind>)
        ensures
            r == kind_of(self.kind as nat),
    {
        if self.kind == KIND_INTEGER {
            Some(ValueKind::Integer)
        } else if self.kind == KIND_BYTES {
            Some(ValueKind::Bytes)
        } else if self.kind == KIND_TEXT {
            Some(ValueKind::Text)
        } else if self.kind == KIND_BOOLEAN {
            Some(ValueKind::Boolean)
        } else {
            None
        }
    }
}

pub open spec fn entry_views(v: Seq<Entry>) -> Seq<EntryView> {
    v.map_values(|e: Entry| e@)
}

// The record grammar: a list of entries, each a list of four items
// `[flags: uint, key: text, kind: uint, value: bytes]`, with nothing after it.

/// The entry at `pos`, and the position after it.
pub open spec fn parse_entry(s: Seq<u8>, pos: int) -> Result<(EntryView, int), DecodeError> {
    match parse_head(s, pos) {
        Err(e) => Err(e),
        Ok(h) => if h.major != MAJOR_ARRAY {
            Err(DecodeError::UnexpectedType)
        } else if h.arg != 4 {
            Err(DecodeError::WrongArity)
        } else {
            match parse_uint(s, h.end) {
                Err(e) => Err(e),
                Ok((flags, p1)) => match parse_string(s, p1, MAJOR_TEXT) {
                    Err(e) => Err(e),
                    Ok((key, p2)) => match parse_uint(s, p2) {
                        Err(e) => Err(e),
                        Ok((kind, p3)) => match parse_string(s, p3, MAJOR_BYTES) {
                            Err(e) => Err(e),
                            Ok((value, p4)) => Ok((EntryView { flags, key, kind, value }, p4)),
                        },
                    },
                },
            }
        },
    }
}

/// `n` consecutive entries from `pos`, and the position after them.
pub open spec fn parse_entries(s: Seq<u8>, pos: int, n: nat) -> Result<(Seq<EntryView>, int), DecodeError>
    decreases n,
{
    if n == 0 {
        Ok((Seq::empty(), pos))
    } else {
        match parse_entries(s, pos, (n - 1) as nat) {
            Err(e) => Err(e),
            Ok((es, p)) => match parse_entry(s, p) {
                Err(e) => Err(e),
                Ok((entry, q)) => Ok((es.push(entry), q)),
            },
        }
    }
}

/// The entries of the record that `s` holds, or why it does not decode.
pub open spec fn parse_event(s: Seq<u8>) -> Result<Seq<EntryView>, DecodeError> {
    match parse_head(s, 0) {
        Err(e) => Err(e),
        Ok(h) => if h.major != MAJOR_ARRAY {
            Err(DecodeError::UnexpectedType)
        } else {
            match parse_entries(s, h.end, h.arg) {
                Err(e) => Err(e),
                Ok((es, end)) => if end != s.len() {
                    Err(DecodeError::TrailingBytes)
                } else {
                    Ok(es)
                },
            }
        },
    }
}

proof fn lemma_entries_error_persists(s: Seq<u8>, pos: int, k: nat, n: nat)
    requires
        k <= n,
        parse_entries(s, pos, k) is Err,
    ensures
        parse_entries(s, pos, n) == parse_entries(s, pos, k),
    decreases n,
{
    if k < n {
        lemma_entries_error_persists(s, pos, k, (n - 1) as nat);
    }
}

fn read_entry(s: &[u8], pos: usize) -> (r: Result<(Entry, usize), DecodeError>)
    ensures
        match r {
            Ok((e, end)) => parse_entry(s@, pos as int) == Ok::<(EntryView, int), DecodeError>(
                (e@, end as int),
            ),
            Err(err) => parse_entry(s@, pos as int) == Err::<(EntryView, int), DecodeError>(err),
        },
        r matches Ok((_, end)) ==> pos < end <= s@.len(),
{
    let (major, count, p0) = read_head(s, pos)?;
    if major != MAJOR_ARRAY {
        return Err(DecodeError::UnexpectedType);
    }
    if count != 4 {
        return Err(DecodeError::WrongArity);
    }
    let (flags, p1) = read_uint(s, p0)?;
    let (key, p2) = read_string(s, p1, MAJOR_TEXT)?;
    let (kind, p3) = read_uint(s, p2)?;
    let (value, p4) = read_string(s, p3, MAJOR_BYTES)?;
    let entry = Entry {
        flags,
        key: vstd::slice::slice_to_vec(key),
        kind,
        value: vstd::slice::slice_to_vec(value),
    };
    Ok((entry, p4))
}

/// Decodes the record that `raw` holds into its entries, or says why it does
/// not decode.
pub fn decode(raw: &[u8]) -> (r: Result<Vec<Entry>, DecodeError>)
    ensures
        match r {
            Ok(v) => parse_event(raw@) == Ok::<Seq<EntryView>, DecodeError>(entry_views(v@)),
            Err(e) => parse_event(raw@) == Err::<Seq<EntryView>, DecodeError>(e),
        },
{
    let (major, count, start) = read_head(raw, 0)?;
    if major != MAJOR_ARRAY {
        return Err(DecodeError::UnexpectedType);
    }
    let mut entries: Vec<Entry> = Vec::new();
    let mut pos = start;
    let mut i: u64 = 0;
    assert(entry_views(entries@) =~= Seq::<EntryView>::empty());
    while i < count
        invariant
            pos <= raw@.len(),
            i <= count,
            major == MAJOR_ARRAY,
            parse_head(raw@, 0) == Ok::<crate::cbor::Head, DecodeError>(
                crate::cbor::Head { major, arg: count as nat, end: start as int },
            ),
            parse_entries(raw@, start as int, i as nat) == Ok::<(Seq<EntryView>, int), DecodeError>(
                (entry_views(entries@), pos as int),
            ),
        decreases count - i,
    {
        match read_entry(raw, pos) {
            Err(err) => {
                proof {
                    assert(parse_entries(raw@, start as int, (i + 1) as nat) == Err::<
                        (Seq<EntryView>, int),
                        DecodeError,
                    >(err));
                    lemma_entries_error_persists(raw@, start as int, (i + 1) as nat, count as nat);
                }
                return Err(err);
            },
            Ok((entry, next)) => {
                let ghost before = entries@;
                entries.push(entry);
                assert(entry_views(entries@) =~= entry_views(before).push(entry@));
                pos = next;
                i = i + 1;
            },
        }
    }
    if pos != raw.len() {
        return Err(DecodeError::TrailingBytes);
    }
    Ok(entries)
}

// The domain rules that a decoded record must meet.

/// Whether `b` may appear in a key: an ASCII letter, digit or underscore.
pub open spec fn is_key_byte(b: u8) -> bool {
    (0x61 <= b <= 0x7a) || (0x41 <= b <= 0x5a) || (0x30 <= b <= 0x39) || b == 0x5f
}

/// A key is one to `MAX_KEY_LEN` key bytes.
pub open spec fn valid_key(k: Seq<u8>) -> bool {
    1 <= k.len() <= MAX_KEY_LEN && forall|i: int| 0 <= i < k.len() ==> is_key_byte(#[trigger] k[i])
}

/// An integer is one to eight bytes, a boolean one byte that is 0 or 1, a
/// text string well-formed UTF-8; a byte string may be any bytes.
pub open spec fn valid_value(kind: nat, v: Seq<u8>) -> bool {
    if kind == KIND_INTEGER {
        1 <= v.len() <= 8
    } else if kind == KIND_BOOLEAN {
        v.len() == 1 && v[0] <= 1
    } else if kind == KIND_TEXT {
        valid_utf8(v)
    } else {
        true
    }
}

/// The first rule, in the order flags, key, kind, value, that an entry breaks.
pub open spec fn entry_violation(e: EntryView) -> Option<RuleViolation> {
    if e.flags > FLAG_MASK {
        Some(RuleViolation::InvalidFlags)
    } else if !valid_key(e.key) {
        Some(RuleViolation::InvalidKey)
    } else if kind_of(e.kind) is None {
        Some(RuleViolation::UnknownKind)
    } else if !valid_value(e.kind, e.value) {
        Some(RuleViolation::InvalidValue)
    } else {
        None
    }
}

/// The rule that the first offending entry among the first `n` breaks.
pub open spec fn first_violation(es: Seq<EntryView>, n: nat) -> Option<RuleViolation>
    decreases n,
{
    if n == 0 {
        None
    } else {
        match first_violation(es, (n - 1) as nat) {
            Some(v) => Some(v),
            None => entry_violation(es[n - 1]),
        }
    }
}

/// The rule that a decoded record breaks, if any: too many entries first,
/// then the first offending entry.
pub open spec fn event_violation(es: Seq<EntryView>) -> Option<RuleViolation> {
    if es.len() > MAX_ENTRIES {
        Some(RuleViolation::TooManyEntries)
    } else {
        first_violation(es, es.len())
    }
}

/// A record that meets every rule.
pub open spec fn valid_event(es: Seq<EntryView>) -> bool {
    es.len() <= MAX_ENTRIES && forall|i: int| 0 <= i < es.len() ==> (#[trigger] entry_violation(es[i])) is None
}

/// The entries of a valid payload, or why it is refused.
pub open spec fn spec_validate(s: Seq<u8>) -> Result<Seq<EntryView>, ArgumentError> {
    match parse_event(s) {
        Err(e) => Err(ArgumentError::Malformed(e)),
        Ok(es) => match event_violation(es) {
            Some(v) => Err(ArgumentError::Violates(v)),
            None => Ok(es),
        },
    }
}

proof fn lemma_first_violation(es: Seq<EntryView>, n: nat)
    requires
        n <= es.len(),
    ensures
        first_violation(es, n) is None <==> forall|i: int| 0 <= i < n ==> (#[trigger] entry_violation(es[i])) is None,
    decreases n,
{
    if n > 0 {
        lemma_first_violation(es, (n - 1) as nat);
    }
}

proof fn lemma_violation_persists(es: Seq<EntryView>, k: nat, n: nat)
    requires
        k <= n,
        first_violation(es, k) is Some,
    ensures
        first_violation(es, n) == first_violation(es, k),
    decreases n,
{
    if k < n {
        lemma_violation_persists(es, k, (n - 1) as nat);
    }
}

/// A payload is accepted exactly when it decodes and the record meets every
/// rule; one that does not decode is refused as malformed, and one that
/// decodes but breaks a rule is refused as violating it.
pub proof fn lemma_validate_accepts_exactly_valid(s: Seq<u8>)
    ensures
        spec_validate(s) is Ok <==> (parse_event(s) is Ok && valid_event(parse_event(s)->Ok_0)),
        spec_validate(s) matches Ok(es) ==> parse_event(s) == Ok::<Seq<EntryView>, DecodeError>(es),
        parse_event(s) is Err ==> spec_validate(s) == Err::<Seq<EntryView>, ArgumentError>(
            ArgumentError::Malformed(parse_event(s)->Err_0),
        ),
        (parse_event(s) is Ok && !valid_event(parse_event(s)->Ok_0)) ==> spec_validate(s) matches Err(
            ArgumentError::Violates(_),
        ),
{
    if let Ok(es) = parse_event(s) {
        lemma_first_violation(es, es.len());
    }
}

fn check_key(k: &Vec<u8>) -> (r: bool)
    ensures
        r == valid_key(k@),
{
    if k.len() == 0 || k.len() > MAX_KEY_LEN {
        return false;
    }
    let mut i: usize = 0;
    while i < k.len()
        invariant
            i <= k@.len(),
            forall|j: int| 0 <= j < i ==> is_key_byte(#[trigger] k@[j]),
        decreases k@.len() - i,
    {
        let b = k[i];
        if !((0x61 <= b && b <= 0x7a) || (0x41 <= b && b <= 0x5a) || (0x30 <= b && b <= 0x39)
            || b == 0x5f) {
            return false;
        }
        i = i + 1;
    }
    true
}

fn check_entry(e: &Entry) -> (r: Option<RuleViolation>)
    ensures
        r == entry_violation(e@),
{
    if e.flags > FLAG_MASK {
        Some(RuleViolation::InvalidFlags)
    } else if !check_key(&e.key) {
        Some(RuleViolation::InvalidKey)
    } else if e.value_kind().is_none() {
        Some(RuleViolation::UnknownKind)
    } else if e.kind == KIND_INTEGER && (e.value.len() == 0 || e.value.len() > 8) {
        Some(RuleViolation::InvalidValue)
    } else if e.kind == KIND_BOOLEAN && (e.value.len() != 1 || e.value[0] > 1) {
        Some(RuleViolation::InvalidValue)
    } else if e.kind == KIND_TEXT && !is_valid_utf8(&e.value) {
        Some(RuleViolation::InvalidValue)
    } else {
        None
    }
}

/// The rule that decoded entries break, if any.
pub fn check_rules(entries: &Vec<Entry>) -> (r: Option<RuleViolation>)
    ensures
        r == event_violation(entry_views(entries@)),
{
    if entries.len() > MAX_ENTRIES {
        return Some(RuleViolation::TooManyEntries);
    }
    let ghost es = entry_views(entries@);
    let mut i: usize = 0;
    while i < entries.len()
        invariant
            i <= entries@.len() <= MAX_ENTRIES,
            es == entry_views(entries@),
            first_violation(es, i as nat) is None,
        decreases entries@.len() - i,
    {
        let v = check_entry(&entries[i]);
        if v.is_some() {
            proof {
                assert(first_violation(es, (i + 1) as nat) == v);
                lemma_violation_persists(es, (i + 1) as nat, es.len());
            }
            return v;
        }
        i = i + 1;
    }
    None
}

/// A decoded record that meets every rule.
pub struct StructuredEvent {
    entries: Vec<Entry>,
}

impl View for StructuredEvent {
    type V = Seq<EntryView>;

    closed spec fn view(&self) -> Seq<EntryView> {
        entry_views(self.entries@)
    }
}

impl StructuredEvent {
    #[verifier::type_invariant]
    spec fn inv(&self) -> bool {
        valid_event(entry_views(self.entries@))
    }

    pub fn entries(&self) -> (r: &Vec<Entry>)
        ensures
            entry_views(r@) == self@,
            valid_event(self@),
    {
        proof {
            use_type_invariant(self);
        }
        &self.entries
    }

    pub fn len(&self) -> (r: usize)
        ensures
            r == self@.len(),
    {
        self.entries.len()
    }
}

/// Decodes `raw` and checks the record against the rules: the structured
/// event, or why the payload is refused.
pub fn validate(raw: &[u8]) -> (r: Result<StructuredEvent, ArgumentError>)
    ensures
        match r {
            Ok(ev) => spec_validate(raw@) == Ok::<Seq<EntryView>, ArgumentError>(ev@),
            Err(e) => spec_validate(raw@) == Err::<Seq<EntryView>, ArgumentError>(e),
        },
{
    let entries = match decode(raw) {
        Ok(entries) => entries,
        Err(e) => return Err(ArgumentError::Malformed(e)),
    };
    match check_rules(&entries) {
        Some(v) => Err(ArgumentError::Violates(v)),
        None => {
            proof {
                lemma_first_violation(entry_views(entries@), entries@.len());
            }
            Ok(StructuredEvent { entries })
        },
    }
}

} // verus!
