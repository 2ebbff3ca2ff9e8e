use fvm::error::{ArgumentError, DecodeError, RuleViolation, SyscallError};
use fvm::event::{decode, validate, Entry, ValueKind};
use fvm::gas::{GasMeter, PriceList};
use fvm::limits::{EventLimits, MAX_EVENT_LEN};
use fvm::log::EffectLog;
use fvm::memory::Memory;
use fvm::syscall::{emit_event, Context, Kernel};
use fvm::utf8::is_valid_utf8;

const BASE: u64 = 100;
const PER_BYTE: u64 = 2;

fn text_head(len: usize) -> Vec<u8> {
    head(3, len as u64)
}

fn head(major: u8, arg: u64) -> Vec<u8> {
    let m = major << 5;
    if arg < 24 {
        vec![m | arg as u8]
    } else if arg < 0x100 {
        vec![m | 24, arg as u8]
    } else if arg < 0x10000 {
        vec![m | 25, (arg >> 8) as u8, arg as u8]
    } else {
        let mut v = vec![m | 27];
        v.extend_from_slice(&arg.to_be_bytes());
        v
    }
}

fn entry(flags: u64, key: &[u8], kind: u64, value: &[u8]) -> Vec<u8> {
    let mut v = head(4, 4);
    v.extend(head(0, flags));
    v.extend(text_head(key.len()));
    v.extend_from_slice(key);
    v.extend(head(0, kind));
    v.extend(head(2, value.len() as u64));
    v.extend_from_slice(value);
    v
}

fn record(entries: &[Vec<u8>]) -> Vec<u8> {
    let mut v = head(4, entries.len() as u64);
    for e in entries {
        v.extend_from_slice(e);
    }
    v
}

fn transfer_event() -> Vec<u8> {
    record(&[entry(0, b"event_type", 2, b"transfer")])
}

fn context(memory: Vec<u8>, gas: u64, capacity: usize, limits: EventLimits) -> Context {
    Context {
        kernel: Kernel::new(GasMeter::new(gas), PriceList::new(BASE, PER_BYTE), EffectLog::new(capacity)),
        memory: Memory::new(memory),
        limits,
    }
}

fn gas_left(c: &Context) -> u64 {
    c.kernel.gas().remaining()
}

#[test]
fn minimal_transfer_event_is_recorded() {
    let payload = transfer_event();
    assert_eq!(
        payload,
        vec![
            0x81, 0x84, 0x00, 0x6a, b'e', b'v', b'e', b'n', b't', b'_', b't', b'y', b'p', b'e', 0x02,
            0x48, b't', b'r', b'a', b'n', b's', b'f', b'e', b'r'
        ]
    );
    let mut memory = vec![0xff; 4];
    memory.extend_from_slice(&payload);
    memory.extend_from_slice(&[0xee; 3]);
    let mut c = context(memory, 1000, 8, EventLimits::production());
    assert_eq!(emit_event(&mut c, 4, payload.len() as u32), Ok(()));
    assert_eq!(gas_left(&c), 1000 - (BASE + PER_BYTE * 24));
    let log = c.kernel.log();
    assert_eq!(log.len(), 1);
    let entries = log.get(0).entries();
    assert_eq!(entries.len(), 1);
    assert_eq!(entries[0].key, b"event_type".to_vec());
    assert_eq!(entries[0].value, b"transfer".to_vec());
    assert_eq!(entries[0].flags, 0);
    assert_eq!(entries[0].value_kind(), Some(ValueKind::Text));
}

#[test]
fn try_slice_bounds() {
    let m = Memory::new(vec![1, 2, 3, 4, 5]);
    assert_eq!(m.try_slice(1, 3).unwrap(), &[2, 3, 4][..]);
    assert_eq!(m.try_slice(0, 5).unwrap(), &[1, 2, 3, 4, 5][..]);
    assert_eq!(m.try_slice(5, 0).unwrap(), &[][..]);
    assert_eq!(m.try_slice(3, 3), Err(SyscallError::MemoryAccessOutOfBounds));
    assert_eq!(m.try_slice(6, 0), Err(SyscallError::MemoryAccessOutOfBounds));
    assert_eq!(m.try_slice(u32::MAX, 1), Err(SyscallError::MemoryAccessOutOfBounds));
    assert_eq!(m.try_slice(1, u32::MAX), Err(SyscallError::MemoryAccessOutOfBounds));
}

#[test]
fn out_of_bounds_emit_charges_nothing() {
    let payload = transfer_event();
    let mut c = context(payload.clone(), 1000, 8, EventLimits::production());
    let r = emit_event(&mut c, 1, payload.len() as u32);
    assert_eq!(r, Err(SyscallError::MemoryAccessOutOfBounds));
    assert_eq!(gas_left(&c), 1000);
    assert_eq!(c.kernel.log().len(), 0);
}

#[test]
fn oversized_length_refused_before_reading_or_charging() {
    let mut c = context(vec![0; 16], 1000, 8, EventLimits::production());
    // The range is also out of bounds: the limit is checked first.
    let r = emit_event(&mut c, 0, MAX_EVENT_LEN + 1);
    assert_eq!(r, Err(SyscallError::IllegalArgument(ArgumentError::EventTooLarge)));
    assert_eq!(gas_left(&c), 1000);
    assert!(!c.kernel.gas().is_exhausted());
}

#[test]
fn limit_allows_exactly_max_len() {
    let limits = EventLimits::production();
    assert_eq!(limits.check(MAX_EVENT_LEN), Ok(()));
    assert_eq!(
        limits.check(MAX_EVENT_LEN + 1),
        Err(SyscallError::IllegalArgument(ArgumentError::EventTooLarge))
    );
    assert_eq!(EventLimits::calibration().check(u32::MAX), Ok(()));
}

#[test]
fn calibration_mode_accepts_large_payload() {
    let big = vec![7u8; 1100];
    let payload = record(&[entry(1, b"blob", 1, &big)]);
    assert!(payload.len() > MAX_EVENT_LEN as usize);
    let mut prod = context(payload.clone(), 1_000_000, 8, EventLimits::production());
    assert_eq!(
        emit_event(&mut prod, 0, payload.len() as u32),
        Err(SyscallError::IllegalArgument(ArgumentError::EventTooLarge))
    );
    let mut cal = context(payload.clone(), 1_000_000, 8, EventLimits::calibration());
    assert_eq!(emit_event(&mut cal, 0, payload.len() as u32), Ok(()));
    assert_eq!(gas_left(&cal), 1_000_000 - (BASE + PER_BYTE * payload.len() as u64));
    assert_eq!(cal.kernel.log().get(0).entries()[0].value, big);
}

#[test]
fn structural_failures() {
    let good = transfer_event();
    let cases: Vec<(Vec<u8>, DecodeError)> = vec![
        (vec![], DecodeError::Truncated),
        (good[..good.len() - 1].to_vec(), DecodeError::Truncated),
        (vec![0x81], DecodeError::Truncated),
        (vec![0x98], DecodeError::Truncated),
        ([good.clone(), vec![0]].concat(), DecodeError::TrailingBytes),
        (vec![0x9f, 0xff], DecodeError::UnsupportedHeader),
        (vec![0x1c], DecodeError::UnsupportedHeader),
        (vec![0xa0], DecodeError::UnexpectedType),
        (vec![0x81, 0x83, 0x00, 0x61, b'k', 0x00], DecodeError::WrongArity),
        (record(&[vec![0x84, 0x00, 0x41, b'k', 0x02, 0x40]]), DecodeError::UnexpectedType),
        (record(&[vec![0x84, 0x00, 0x61, b'k', 0x02, 0x60]]), DecodeError::UnexpectedType),
    ];
    for (bytes, e) in cases {
        assert_eq!(decode(&bytes), Err(e), "{:?}", bytes);
        assert_eq!(validate(&bytes).err(), Some(ArgumentError::Malformed(e)));
    }
}

#[test]
fn empty_record_decodes_to_no_entries() {
    assert_eq!(decode(&[0x80]), Ok(vec![]));
    assert_eq!(validate(&[0x80]).unwrap().len(), 0);
}

#[test]
fn wide_header_arguments_decode() {
    // flags written on one extra byte, kind on eight.
    let bytes = vec![
        0x81, 0x84, 0x18, 0x03, 0x61, b'k', 0x1b, 0, 0, 0, 0, 0, 0, 0, 0x03, 0x41, 0x01,
    ];
    let entries = decode(&bytes).unwrap();
    assert_eq!(
        entries,
        vec![Entry { flags: 3, key: b"k".to_vec(), kind: 3, value: vec![1] }]
    );
    assert!(validate(&bytes).is_ok());
    let huge = vec![0x81, 0x84, 0x1b, 0xff, 0xff, 0xff, 0xff, 0xff, 0xff, 0xff, 0xff, 0x61, b'k', 0x00, 0x41, 0x01];
    assert_eq!(decode(&huge).unwrap()[0].flags, u64::MAX);
    assert_eq!(
        validate(&huge).err(),
        Some(ArgumentError::Violates(RuleViolation::InvalidFlags))
    );
}

#[test]
fn semantic_failures() {
    let long_key = [b'a'; 32];
    let cases: Vec<(Vec<u8>, RuleViolation)> = vec![
        (record(&[entry(4, b"k", 0, &[1])]), RuleViolation::InvalidFlags),
        (record(&[entry(0, b"", 0, &[1])]), RuleViolation::InvalidKey),
        (record(&[entry(0, b"bad-key", 0, &[1])]), RuleViolation::InvalidKey),
        (record(&[entry(0, &long_key, 0, &[1])]), RuleViolation::InvalidKey),
        (record(&[entry(0, b"k", 7, &[1])]), RuleViolation::UnknownKind),
        (record(&[entry(0, b"k", 3, &[2])]), RuleViolation::InvalidValue),
        (record(&[entry(0, b"k", 3, &[0, 1])]), RuleViolation::InvalidValue),
        (record(&[entry(0, b"k", 0, &[])]), RuleViolation::InvalidValue),
        (record(&[entry(0, b"k", 0, &[1; 9])]), RuleViolation::InvalidValue),
        (
            record(&[entry(0, b"ok", 1, b"x"), entry(0, b"k", 9, &[1]), entry(9, b"k", 0, &[1])]),
            RuleViolation::UnknownKind,
        ),
    ];
    for (bytes, v) in cases {
        assert!(decode(&bytes).is_ok());
        assert_eq!(validate(&bytes).err(), Some(ArgumentError::Violates(v)), "{:?}", bytes);
    }
}

#[test]
fn key_and_value_edges_accepted() {
    let key = [b'Z'; 31];
    let bytes = record(&[
        entry(3, &key, 0, &[1; 8]),
        entry(1, b"A_9", 3, &[0]),
        entry(2, b"t", 2, b""),
        entry(0, b"b", 1, b""),
    ]);
    let ev = validate(&bytes).unwrap();
    assert_eq!(ev.len(), 4);
    assert_eq!(ev.entries()[1].value_kind(), Some(ValueKind::Boolean));
    assert_eq!(ev.entries()[0].value_kind(), Some(ValueKind::Integer));
    assert_eq!(ev.entries()[3].value_kind(), Some(ValueKind::Bytes));
}

#[test]
fn entry_count_limit() {
    let one = entry(0, b"k", 1, b"");
    let at_limit: Vec<Vec<u8>> = vec![one.clone(); 255];
    assert_eq!(validate(&record(&at_limit)).unwrap().len(), 255);
    let over: Vec<Vec<u8>> = vec![one; 256];
    assert_eq!(
        validate(&record(&over)).err(),
        Some(ArgumentError::Violates(RuleViolation::TooManyEntries))
    );
}

#[test]
fn invalid_payload_charged_then_refused() {
    let payload = record(&[entry(0, b"k", 7, &[1])]);
    let mut c = context(payload.clone(), 1000, 8, EventLimits::production());
    let r = emit_event(&mut c, 0, payload.len() as u32);
    assert_eq!(r, Err(SyscallError::IllegalArgument(ArgumentError::Violates(RuleViolation::UnknownKind))));
    assert_eq!(gas_left(&c), 1000 - (BASE + PER_BYTE * payload.len() as u64));
    assert_eq!(c.kernel.log().len(), 0);
}

#[test]
fn failure_repeats_identically() {
    let payload = vec![0x81, 0x84, 0x00];
    let mut c = context(payload.clone(), 1000, 8, EventLimits::production());
    let r1 = emit_event(&mut c, 0, 3);
    let after1 = gas_left(&c);
    let r2 = emit_event(&mut c, 0, 3);
    let after2 = gas_left(&c);
    assert_eq!(r1, Err(SyscallError::IllegalArgument(ArgumentError::Malformed(DecodeError::Truncated))));
    assert_eq!(r1, r2);
    assert_eq!(1000 - after1, after1 - after2);
    assert_eq!(1000 - after1, BASE + PER_BYTE * 3);
}

#[test]
fn out_of_gas_is_final() {
    let payload = transfer_event();
    let mut c = context(payload.clone(), 50, 8, EventLimits::production());
    assert_eq!(emit_event(&mut c, 0, payload.len() as u32), Err(SyscallError::OutOfGas));
    assert_eq!(gas_left(&c), 0);
    assert!(c.kernel.gas().is_exhausted());
    assert_eq!(c.kernel.log().len(), 0);
    assert_eq!(emit_event(&mut c, 0, payload.len() as u32), Err(SyscallError::OutOfGas));
    assert_eq!(emit_event(&mut c, 0, 0), Err(SyscallError::OutOfGas));
    assert_eq!(gas_left(&c), 0);
}

#[test]
fn gas_meter_charges() {
    let mut g = GasMeter::new(10);
    assert_eq!(g.charge(4), Ok(()));
    assert_eq!(g.remaining(), 6);
    assert_eq!(g.charge(6), Ok(()));
    assert_eq!(g.remaining(), 0);
    assert_eq!(g.charge(0), Ok(()));
    assert!(!g.is_exhausted());
    assert_eq!(g.charge(1), Err(SyscallError::OutOfGas));
    assert!(g.is_exhausted());
    assert_eq!(g.charge(0), Err(SyscallError::OutOfGas));
    let mut h = GasMeter::new(5);
    assert_eq!(h.charge(9), Err(SyscallError::OutOfGas));
    assert_eq!(h.remaining(), 0);
}

#[test]
fn gas_never_increases_across_calls() {
    let good = transfer_event();
    let mut memory = good.clone();
    memory.extend_from_slice(&[0x9f, 0xff]);
    let n = good.len() as u32;
    let mut c = context(memory, 200, 8, EventLimits::production());
    let calls = [(0, n), (n, 2), (0, 5000), (100, 1), (0, n), (0, n)];
    let mut last = gas_left(&c);
    for (off, len) in calls {
        let _ = emit_event(&mut c, off, len);
        assert!(gas_left(&c) <= last);
        last = gas_left(&c);
    }
    assert_eq!(last, 0);
}

#[test]
fn price_list_costs() {
    let p = PriceList::new(BASE, PER_BYTE);
    assert_eq!(p.on_emit_event(0), 100);
    assert_eq!(p.on_emit_event(24), 148);
    assert_eq!(PriceList::new(u64::MAX, 1).on_emit_event(1), u64::MAX);
    assert_eq!(PriceList::new(1, u64::MAX).on_emit_event(2), u64::MAX);
}

#[test]
fn events_recorded_in_call_order() {
    let a = record(&[entry(0, b"event_type", 2, b"a")]);
    let b = record(&[entry(1, b"n", 0, &[2])]);
    let d = record(&[entry(2, b"flag", 3, &[1]), entry(0, b"x", 1, b"")]);
    let memory = [a.clone(), b.clone(), d.clone()].concat();
    let mut c = context(memory, 10_000, 8, EventLimits::production());
    let (la, lb, ld) = (a.len() as u32, b.len() as u32, d.len() as u32);
    assert_eq!(emit_event(&mut c, 0, la), Ok(()));
    assert_eq!(emit_event(&mut c, la, lb), Ok(()));
    assert_eq!(emit_event(&mut c, la + lb, ld), Ok(()));
    let log = c.kernel.log();
    assert_eq!(log.len(), 3);
    assert_eq!(log.get(0).entries(), &decode(&a).unwrap());
    assert_eq!(log.get(1).entries(), &decode(&b).unwrap());
    assert_eq!(log.get(2).entries(), &decode(&d).unwrap());
}

#[test]
fn full_log_is_host_error() {
    let payload = transfer_event();
    let n = payload.len() as u32;
    let mut c = context(payload, 10_000, 1, EventLimits::production());
    assert_eq!(emit_event(&mut c, 0, n), Ok(()));
    let before = gas_left(&c);
    let r = emit_event(&mut c, 0, n);
    assert_eq!(r, Err(SyscallError::HostError));
    assert_eq!(before - gas_left(&c), BASE + PER_BYTE * n as u64);
    assert_eq!(c.kernel.log().len(), 1);
    assert_eq!(c.kernel.log().capacity(), 1);
    let e = r.unwrap_err();
    assert!(e.is_fatal());
    assert!(!e.is_guest_fault());
}

#[test]
fn error_classification() {
    assert!(SyscallError::OutOfGas.is_fatal());
    assert!(SyscallError::OutOfGas.is_guest_fault());
    assert!(!SyscallError::MemoryAccessOutOfBounds.is_fatal());
    let ia = SyscallError::IllegalArgument(ArgumentError::EventTooLarge);
    assert!(!ia.is_fatal());
    assert!(ia.is_guest_fault());
}

#[test]
fn text_values_must_be_utf8() {
    let ok = record(&[entry(0, b"name", 2, "grüße €𝄞".as_bytes())]);
    assert!(validate(&ok).is_ok());
    for bad in [&[0xffu8][..], &[0xc3], &[0xed, 0xa0, 0x80], &[0xc0, 0xaf], &[0xf4, 0x90, 0x80, 0x80]] {
        let bytes = record(&[entry(0, b"name", 2, bad)]);
        assert_eq!(
            validate(&bytes).err(),
            Some(ArgumentError::Violates(RuleViolation::InvalidValue))
        );
        // The same bytes are fine as a byte string.
        assert!(validate(&record(&[entry(0, b"name", 1, bad)])).is_ok());
    }
}

#[test]
fn utf8_check_agrees_with_std() {
    let samples: Vec<Vec<u8>> = vec![
        vec![],
        b"plain".to_vec(),
        "ü".as_bytes().to_vec(),
        "\u{7ff}\u{800}\u{ffff}\u{10000}\u{10ffff}".as_bytes().to_vec(),
        vec![0x80],
        vec![0xc1, 0xbf],
        vec![0xe0, 0x9f, 0xbf],
        vec![0xe0, 0xa0, 0x80],
        vec![0xed, 0x9f, 0xbf],
        vec![0xed, 0xa0, 0x80],
        vec![0xef, 0xbf, 0xbf],
        vec![0xf0, 0x8f, 0xbf, 0xbf],
        vec![0xf0, 0x90, 0x80, 0x80],
        vec![0xf4, 0x8f, 0xbf, 0xbf],
        vec![0xf5, 0x80, 0x80, 0x80],
        vec![0xe2, 0x82],
        vec![b'a', 0xf0, 0x9f, 0x98],
    ];
    for s in samples {
        assert_eq!(is_valid_utf8(&s), std::str::from_utf8(&s).is_ok(), "{:?}", s);
    }
}
