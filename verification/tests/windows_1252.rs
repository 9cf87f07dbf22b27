use strffi::{SeStr, SeaString, ZMbCString, ZMbStr};
use strffi::allocator::Malloc;
use strffi::encoding::{MbUnit, MultiByte, Utf16, Utf16Unit, WUnit, Wide};
use strffi::encoding::conv::WcToUniError;
use strffi::encoding::conv::windows::{UniToWcIter, WcToUniIter};
use strffi::ffi::{mbstate_t, Host, MbGroup, MbToWc, WcToMb};
use strffi::iter::{SliceIter, Source};
use strffi::structure::ZeroTerm;

/// Stands for the C runtime in the locale of code page 1252, as far as the
/// characters of Latin-1 go.
#[derive(Clone, Copy)]
struct Cp1252Host;

impl Host for Cp1252Host {
    fn mbrtowc(&self, src: &[MbUnit], _state: &mut mbstate_t) -> MbToWc {
        let byte = src[0].to_byte();
        if (0x80..0xA0).contains(&byte) {
            MbToWc::Illegal
        } else {
            MbToWc::Complete(WUnit(byte as i32))
        }
    }

    fn wcrtomb(&self, wc: WUnit, _state: &mut mbstate_t) -> WcToMb {
        if (0..0x80).contains(&wc.0) || (0xA0..0x100).contains(&wc.0) {
            WcToMb::Written(MbGroup::new(&[MbUnit::from_byte(wc.0 as u8)]).unwrap())
        } else {
            WcToMb::Illegal
        }
    }
}

fn mb(bytes: &[u8]) -> Vec<MbUnit> {
    bytes.iter().map(|b| MbUnit::from_byte(*b)).collect()
}

fn utf16(units: &[u16]) -> Vec<Utf16Unit> {
    units.iter().map(|u| Utf16Unit(*u)).collect()
}

const WORD: &str = "gªrçon";
const WORD_MB: &[u8] = b"g\xaar\xe7on\0";
const WORD_W: &[u16] = &[0x67, 0xAA, 0x72, 0xE7, 0x6F, 0x6E, 0x00];

#[test]
fn windows_1252_test_garcon() {
    let word_mb = mb(WORD_MB);
    let word_w = utf16(WORD_W);
    let word_wide: Vec<WUnit> = WORD_W.iter().map(|u| WUnit(*u as i32)).collect();

    let zmbstr = ZMbStr::from_ptr(Some(&word_mb[..])).expect("zmbstr");
    let zwstr: SeStr<ZeroTerm, Utf16> = SeStr::from_ptr(Some(&word_w[..])).expect("zwstr");
    let zwide: SeStr<ZeroTerm, Wide> = SeStr::from_ptr(Some(&word_wide[..])).expect("zwide");
    {
        let rstr = zmbstr.into_string(Cp1252Host).expect("into_string");
        assert_eq!(&rstr, WORD);
    }
    {
        let rstr = zwstr.into_string().expect("into_string");
        assert_eq!(&rstr, WORD);
    }
    {
        let zwcstr: SeaString<ZeroTerm, Wide, Malloc> =
            zmbstr.deref().transcode_to_wide(Cp1252Host).expect("transcode_to");
        assert!(zwcstr.as_ref().eq(&zwide));
        let units: Vec<Utf16Unit> =
            zwcstr.as_units_with_term().iter().map(|u| Utf16Unit(u.0 as u16)).collect();
        let as_utf16: SeStr<ZeroTerm, Utf16> = SeStr::from_ptr(Some(&units[..])).unwrap();
        let rstr = as_utf16.into_string().expect("into_string");
        assert_eq!(&rstr, WORD);
    }
    {
        let made: SeaString<ZeroTerm, MultiByte, Malloc> =
            zwide.transcode_to_multibyte(Cp1252Host).expect("transcode_to");
        let zmbcstr = ZMbCString::from(made);
        assert!(zmbcstr.as_ref().deref().eq(&zmbstr.deref()));
        let rstr = zmbcstr.as_ref().into_string(Cp1252Host).expect("into_string");
        assert_eq!(&rstr, WORD);
    }
}

#[test]
fn utf16_surrogate_decoding() {
    let units = utf16(&[0xD83D, 0xDE00, 0x0000]);
    let s: SeStr<ZeroTerm, Utf16> = SeStr::from_ptr(Some(&units[..])).unwrap();
    let chars: SeaString<strffi::structure::Slice, strffi::encoding::CheckedUnicode, Malloc> =
        s.transcode_to().unwrap();
    assert_eq!(chars.as_units(), &['\u{1F600}'][..]);

    let units = utf16(&[0xDE00, 0x0000]);
    let s: SeStr<ZeroTerm, Utf16> = SeStr::from_ptr(Some(&units[..])).unwrap();
    assert_eq!(s.into_string(), Err(WcToUniError::InvalidAt(0)));

    let units = utf16(&[0xD83D, 0x0000]);
    let s: SeStr<ZeroTerm, Utf16> = SeStr::from_ptr(Some(&units[..])).unwrap();
    assert_eq!(s.into_string(), Err(WcToUniError::Incomplete));
}

#[test]
fn surrogate_pair_is_one_character() {
    let units = utf16(&[0xD83D, 0xDE00, 0x0000]);
    let mut it = WcToUniIter::new(SliceIter::new(&units));
    assert_eq!(it.next(), Some(Ok('\u{1F600}')));
    assert_eq!(it.next(), Some(Ok('\0')));
    assert_eq!(it.next(), None);
    let s: SeStr<ZeroTerm, Utf16> = SeStr::from_ptr(Some(&units[..])).unwrap();
    assert_eq!(s.into_string().unwrap(), "\u{1F600}");
}

#[test]
fn lone_low_surrogate_is_invalid_at_its_offset() {
    let units = utf16(&[0xDE00, 0x0000]);
    let mut it = WcToUniIter::new(SliceIter::new(&units));
    assert_eq!(it.next(), Some(Err(WcToUniError::InvalidAt(0))));
    assert_eq!(it.next(), None);
    assert_eq!(it.next(), None);
    let units = utf16(&[0x41, 0x42, 0xDC00, 0x43]);
    let mut it = WcToUniIter::new(SliceIter::new(&units));
    assert_eq!(it.next(), Some(Ok('A')));
    assert_eq!(it.next(), Some(Ok('B')));
    assert_eq!(it.next(), Some(Err(WcToUniError::InvalidAt(2))));
    assert_eq!(it.next(), None);
}

#[test]
fn high_surrogate_at_the_end_is_incomplete() {
    let units = utf16(&[0xD83D]);
    let mut it = WcToUniIter::new(SliceIter::new(&units));
    assert_eq!(it.next(), Some(Err(WcToUniError::Incomplete)));
    assert_eq!(it.next(), None);
    // A string ends before its terminator: the high surrogate is its last unit.
    let units = utf16(&[0xD83D, 0x0000]);
    let s: SeStr<ZeroTerm, Utf16> = SeStr::from_ptr(Some(&units[..])).unwrap();
    assert_eq!(s.into_string(), Err(WcToUniError::Incomplete));
}

#[test]
fn high_surrogate_without_low_is_invalid_at_the_high() {
    let units = utf16(&[0x41, 0xD83D, 0x0041]);
    let mut it = WcToUniIter::new(SliceIter::new(&units));
    assert_eq!(it.next(), Some(Ok('A')));
    assert_eq!(it.next(), Some(Err(WcToUniError::InvalidAt(1))));
    assert_eq!(it.next(), None);
    let units = utf16(&[0xD83D, 0xD83D, 0xDE00]);
    let mut it = WcToUniIter::new(SliceIter::new(&units));
    assert_eq!(it.next(), Some(Err(WcToUniError::InvalidAt(0))));
    assert_eq!(it.next(), None);
}

#[test]
fn offsets_count_both_units_of_a_pair() {
    let units = utf16(&[0xD83D, 0xDE00, 0xDFFF]);
    let mut it = WcToUniIter::new(SliceIter::new(&units));
    assert_eq!(it.next(), Some(Ok('\u{1F600}')));
    assert_eq!(it.next(), Some(Err(WcToUniError::InvalidAt(2))));
}

#[test]
fn limits_of_the_surrogate_ranges() {
    let units = utf16(&[0xD7FF, 0xE000, 0xFFFF, 0xD800, 0xDC00, 0xDBFF, 0xDFFF]);
    let mut it = WcToUniIter::new(SliceIter::new(&units));
    assert_eq!(it.next(), Some(Ok('\u{D7FF}')));
    assert_eq!(it.next(), Some(Ok('\u{E000}')));
    assert_eq!(it.next(), Some(Ok('\u{FFFF}')));
    assert_eq!(it.next(), Some(Ok('\u{10000}')));
    assert_eq!(it.next(), Some(Ok('\u{10FFFF}')));
    assert_eq!(it.next(), None);
}

#[test]
fn unicode_to_utf16_emits_one_or_two_units() {
    let chars = ['g', '\u{AA}', '\u{FFFF}', '\u{10000}', '\u{1F600}', '\u{10FFFF}'];
    let mut it = UniToWcIter::new(SliceIter::new(&chars));
    let mut out = Vec::new();
    while let Some(item) = it.next() {
        out.push(item.unwrap().0);
    }
    assert_eq!(
        out,
        vec![0x67, 0xAA, 0xFFFF, 0xD800, 0xDC00, 0xD83D, 0xDE00, 0xDBFF, 0xDFFF]
    );
    assert!(it.next().is_none());
}

#[test]
fn utf16_round_trip_through_the_host_string() {
    let units = utf16(&[0x67, 0xAA, 0xD83D, 0xDE00, 0x6E]);
    let owned: SeaString<strffi::structure::Slice, Utf16, Malloc> =
        SeaString::new(&units).unwrap();
    let host = owned.as_ref().into_string().unwrap();
    assert_eq!(host, "gª😀n");
    let back: SeaString<strffi::structure::Slice, Utf16, Malloc> =
        SeaString::from_str(&host).unwrap();
    assert_eq!(back.as_units(), &units[..]);
}
