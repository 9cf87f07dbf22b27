use strffi::{SeStr, SeaString, ZWCString, ZWStr};
use strffi::allocator::{Malloc, Rust};
use strffi::encoding::{CheckedUnicode, TranscodeTo, UnitIter, WUnit, Wide};
use strffi::encoding::conv::{always_ok, WcToUniError};
use strffi::encoding::conv::linux::{scalar_of, UniToWcIter, WcToUniIter};
use strffi::iter::{SliceIter, Source};
use strffi::sea::TranscodeError;
use strffi::structure::{Slice, ZeroTerm};

fn wide(units: &[u32]) -> Vec<WUnit> {
    units.iter().map(|u| WUnit(*u as i32)).collect()
}

#[test]
fn wide_source_gives_the_word() {
    let units = wide(&[0x67, 0xAA, 0x72, 0xE7, 0x6F, 0x6E, 0x00]);
    let zwstr: ZWStr = SeStr::from_ptr(Some(&units[..])).unwrap();
    assert_eq!(zwstr.into_string().unwrap(), "gªrçon");
}

#[test]
fn scalar_range_is_validated() {
    assert_eq!(scalar_of(WUnit(0)), Some('\0'));
    assert_eq!(scalar_of(WUnit(0xD7FF)), Some('\u{D7FF}'));
    assert_eq!(scalar_of(WUnit(0xD800)), None);
    assert_eq!(scalar_of(WUnit(0xDFFF)), None);
    assert_eq!(scalar_of(WUnit(0xE000)), Some('\u{E000}'));
    assert_eq!(scalar_of(WUnit(0x30000)), Some('\u{30000}'));
    assert_eq!(scalar_of(WUnit(0x10FFFF)), Some('\u{10FFFF}'));
    assert_eq!(scalar_of(WUnit(0x110000)), None);
    assert_eq!(scalar_of(WUnit(-1)), None);
    assert_eq!(scalar_of(WUnit(i32::MIN)), None);
}

#[test]
fn invalid_wide_unit_stops_the_transcoder() {
    let units = wide(&[0x61, 0x62, 0xD800, 0x63]);
    let mut it = WcToUniIter::new(SliceIter::new(&units));
    assert_eq!(it.next(), Some(Ok('a')));
    assert_eq!(it.next(), Some(Ok('b')));
    assert_eq!(it.next(), Some(Err(WcToUniError::InvalidAt(2))));
    assert_eq!(it.next(), None);
    assert_eq!(it.next(), None);
}

#[test]
fn zero_units_do_not_end_a_transcoding() {
    let units = wide(&[0x61, 0, 0x62]);
    let mut it = TranscodeTo::<CheckedUnicode>::transcode(UnitIter::<Wide, _>::new(
        SliceIter::new(&units),
    ));
    assert_eq!(it.next(), Some(Ok('a')));
    assert_eq!(it.next(), Some(Ok('\0')));
    assert_eq!(it.next(), Some(Ok('b')));
    assert_eq!(it.next(), None);
}

#[test]
fn unicode_to_wide_is_the_scalar_value() {
    let chars = ['g', '\u{AA}', '\u{1F600}', '\u{10FFFF}'];
    let mut it = UniToWcIter::new(SliceIter::new(&chars));
    assert_eq!(always_ok(it.next().unwrap()), WUnit(0x67));
    assert_eq!(always_ok(it.next().unwrap()), WUnit(0xAA));
    assert_eq!(always_ok(it.next().unwrap()), WUnit(0x1F600));
    assert_eq!(always_ok(it.next().unwrap()), WUnit(0x10FFFF));
    assert!(it.next().is_none());
    let mut it = TranscodeTo::<Wide>::transcode(UnitIter::<CheckedUnicode, _>::new(
        SliceIter::new(&chars),
    ));
    assert_eq!(always_ok(it.next().unwrap()), WUnit(0x67));
}

#[test]
fn wide_round_trip_through_the_host_string() {
    let units = wide(&[0x67, 0xAA, 0x1F600, 0x10FFFF, 0x6E]);
    let owned: ZWCString = SeaString::new(&units).unwrap();
    let host = owned.as_ref().into_string().unwrap();
    assert_eq!(host, "gª😀\u{10FFFF}n");
    let back: ZWCString = SeaString::from_str(&host).unwrap();
    assert_eq!(back.as_units(), &units[..]);
    assert!(back.eq(&owned));
}

#[test]
fn transcode_to_reports_the_first_error() {
    let units = wide(&[0x61, 0x110000, 0xD800, 0]);
    let zwstr: ZWStr = SeStr::from_ptr(Some(&units[..])).unwrap();
    assert_eq!(zwstr.into_string(), Err(WcToUniError::InvalidAt(1)));
    let made: Result<SeaString<Slice, CheckedUnicode, Rust>, _> = zwstr.transcode_to();
    match made {
        Err(TranscodeError::Transcode(WcToUniError::InvalidAt(1))) => {}
        _ => panic!("expected InvalidAt(1)"),
    }
}

#[test]
fn transcode_to_can_change_the_structure() {
    let units = wide(&[0x67, 0xAA, 0]);
    let zwstr: ZWStr = SeStr::from_ptr(Some(&units[..])).unwrap();
    let chars: SeaString<Slice, CheckedUnicode, Malloc> = zwstr.transcode_to().unwrap();
    assert_eq!(chars.as_units(), &['g', '\u{AA}'][..]);
    let again: SeaString<ZeroTerm, Wide, Malloc> = chars.as_ref().transcode_to().unwrap();
    assert_eq!(again.as_units_with_term(), &units[..]);
    let mut it = zwstr.transcode_to_iter::<CheckedUnicode>();
    assert_eq!(it.next(), Some(Ok('g')));
}
