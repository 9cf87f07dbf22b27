use strffi::{SeStr, ZMbCString, ZMbStr, ZWCString, ZWStr};
use strffi::allocator::Malloc;
use strffi::encoding::{MbUnit, WUnit, Wide};
use strffi::encoding::conv::mb_x_wc::{
    judge, lift, mbs_to_wcs, wcs_to_mbs, MbsToUniError, MbsToUniIter, MbsToWcError,
    MbsToWcIter2, Step, WcsToMbError, WcsToMbIter,
};
use strffi::ffi::{mbstate_t, Host, MbGroup, MbToWc, WcToMb, MB_LEN_MAX};
use strffi::iter::{SliceIter, Source};
use strffi::sea::TranscodeError;
use strffi::structure::ZeroTerm;

/// Stands for the C runtime in a UTF-8 locale.
#[derive(Clone, Copy)]
struct Utf8Host;

impl Host for Utf8Host {
    fn mbrtowc(&self, src: &[MbUnit], _state: &mut mbstate_t) -> MbToWc {
        let bytes: Vec<u8> = src.iter().map(|u| u.to_byte()).collect();
        match std::str::from_utf8(&bytes) {
            Ok(s) => MbToWc::Complete(WUnit(s.chars().next().unwrap() as u32 as i32)),
            Err(e) => match e.error_len() {
                None => MbToWc::Incomplete,
                Some(_) => MbToWc::Illegal,
            },
        }
    }

    fn wcrtomb(&self, wc: WUnit, _state: &mut mbstate_t) -> WcToMb {
        let c = if wc.0 < 0 { None } else { char::from_u32(wc.0 as u32) };
        match c {
            None => WcToMb::Illegal,
            Some(c) => {
                let mut buf = [0u8; 4];
                let units: Vec<MbUnit> =
                    c.encode_utf8(&mut buf).bytes().map(MbUnit::from_byte).collect();
                WcToMb::Written(MbGroup::new(&units).unwrap())
            }
        }
    }
}

/// A host that never finds the end of a character.
#[derive(Clone, Copy)]
struct EndlessHost;

impl Host for EndlessHost {
    fn mbrtowc(&self, _src: &[MbUnit], _state: &mut mbstate_t) -> MbToWc {
        MbToWc::Incomplete
    }

    fn wcrtomb(&self, _wc: WUnit, _state: &mut mbstate_t) -> WcToMb {
        WcToMb::Illegal
    }
}

/// A host of single bytes below 0x80, that never finds the end of any other
/// character.
struct AsciiThenEndless;

impl Host for AsciiThenEndless {
    fn mbrtowc(&self, src: &[MbUnit], _state: &mut mbstate_t) -> MbToWc {
        if src[0].0 >= 0 {
            MbToWc::Complete(WUnit(src[0].0 as i32))
        } else {
            MbToWc::Incomplete
        }
    }

    fn wcrtomb(&self, _wc: WUnit, _state: &mut mbstate_t) -> WcToMb {
        WcToMb::Illegal
    }
}

/// A host that knows the characters below 0x80 and no other.
#[derive(Clone, Copy)]
struct AsciiOnly;

impl Host for AsciiOnly {
    fn mbrtowc(&self, src: &[MbUnit], _state: &mut mbstate_t) -> MbToWc {
        if src[0].0 >= 0 {
            MbToWc::Complete(WUnit(src[0].0 as i32))
        } else {
            MbToWc::Illegal
        }
    }

    fn wcrtomb(&self, wc: WUnit, _state: &mut mbstate_t) -> WcToMb {
        if 0 <= wc.0 && wc.0 < 0x80 {
            WcToMb::Written(MbGroup::new(&[MbUnit(wc.0 as i8)]).unwrap())
        } else {
            WcToMb::Illegal
        }
    }
}

/// A host that takes every unit for a surrogate.
struct SurrogateHost;

impl Host for SurrogateHost {
    fn mbrtowc(&self, _src: &[MbUnit], _state: &mut mbstate_t) -> MbToWc {
        MbToWc::Complete(WUnit(0xD800))
    }

    fn wcrtomb(&self, _wc: WUnit, _state: &mut mbstate_t) -> WcToMb {
        WcToMb::Illegal
    }
}

fn mb(bytes: &[u8]) -> Vec<MbUnit> {
    bytes.iter().map(|b| MbUnit::from_byte(*b)).collect()
}

fn wide(units: &[u32]) -> Vec<WUnit> {
    units.iter().map(|u| WUnit(*u as i32)).collect()
}

const WORD: &str = "gªrçon";
const WORD_MB: &[u8] = b"g\xc2\xaar\xc3\xa7on\0";
const WORD_W: &[u32] = &[0x67, 0xAA, 0x72, 0xE7, 0x6F, 0x6E, 0x00];

#[test]
fn linux_utf8_test_garcon() {
    let word_mb = mb(WORD_MB);
    let word_w = wide(WORD_W);

    let zmbstr = ZMbStr::from_ptr(Some(&word_mb[..])).expect("zmbstr");
    let zwstr: ZWStr = SeStr::from_ptr(Some(&word_w[..])).expect("zwstr");
    {
        let rstr = zmbstr.into_string(Utf8Host).expect("into_string");
        assert_eq!(&rstr, WORD);
    }
    {
        let rstr = zwstr.into_string().expect("into_string");
        assert_eq!(&rstr, WORD);
    }
    {
        let zwcstr: ZWCString = zmbstr.deref().transcode_to_wide(Utf8Host).expect("transcode_to");
        assert!(zwcstr.as_ref().eq(&zwstr));
        let rstr = zwcstr.as_ref().into_string().expect("into_string");
        assert_eq!(&rstr, WORD);
    }
    {
        let zmbcstr: ZMbCString =
            ZMbCString::from(zwstr.transcode_to_multibyte(Utf8Host).expect("transcode_to"));
        assert!(zmbcstr.as_ref().deref().eq(&zmbstr.deref()));
        let rstr = zmbcstr.as_ref().into_string(Utf8Host).expect("into_string");
        assert_eq!(&rstr, WORD);
    }
    {
        let zmbcstr = ZMbCString::from_str(WORD, Utf8Host).expect("from_str");
        assert!(zmbcstr.as_ref().deref().eq(&zmbstr.deref()));
    }
    {
        let zwcstr = ZWCString::from_str(WORD).expect("from_str");
        assert!(zwcstr.as_ref().eq(&zwstr));
    }
}

#[test]
fn multibyte_to_wide_units_include_terminator_when_asked() {
    let word_mb = mb(WORD_MB);
    let zmbstr = ZMbStr::from_ptr(Some(&word_mb[..])).unwrap();
    assert_eq!(zmbstr.as_units().len(), 8);
    assert_eq!(zmbstr.as_units_with_term().len(), 9);
    let zwcstr: ZWCString = zmbstr.deref().transcode_to_wide(Utf8Host).unwrap();
    let expect = wide(WORD_W);
    assert_eq!(zwcstr.as_units_with_term(), &expect[..]);
    assert_eq!(zwcstr.as_units(), &expect[..6]);
}

#[test]
fn wide_to_multibyte_gives_the_bytes() {
    let word_w = wide(WORD_W);
    let zwstr: ZWStr = SeStr::from_ptr(Some(&word_w[..])).unwrap();
    let made: strffi::SeaString<ZeroTerm, strffi::encoding::MultiByte, Malloc> =
        zwstr.transcode_to_multibyte(Utf8Host).unwrap();
    assert_eq!(made.as_units_with_term(), &mb(WORD_MB)[..]);
}

#[test]
fn multibyte_transcoder_counts_source_units() {
    let units = mb(b"g\xc2\xaar");
    let mut it = MbsToWcIter2::new(SliceIter::new(&units), Utf8Host);
    assert_eq!(it.next(), Some(Ok(WUnit(0x67))));
    assert_eq!(it.next(), Some(Ok(WUnit(0xAA))));
    assert_eq!(it.next(), Some(Ok(WUnit(0x72))));
    assert_eq!(it.next(), None);
    assert_eq!(it.next(), None);
}

#[test]
fn illegal_multibyte_is_invalid_at_its_offset_and_fuses() {
    let units = mb(b"ab\xffcd");
    let mut it = MbsToWcIter2::new(SliceIter::new(&units), Utf8Host);
    assert_eq!(it.next(), Some(Ok(WUnit(0x61))));
    assert_eq!(it.next(), Some(Ok(WUnit(0x62))));
    assert_eq!(it.next(), Some(Err(MbsToWcError::InvalidAt(2))));
    assert_eq!(it.next(), None);
    assert_eq!(it.next(), None);
}

#[test]
fn truncated_multibyte_is_incomplete() {
    let units = mb(b"a\xc3");
    let mut it = MbsToWcIter2::new(SliceIter::new(&units), Utf8Host);
    assert_eq!(it.next(), Some(Ok(WUnit(0x61))));
    assert_eq!(it.next(), Some(Err(MbsToWcError::Incomplete)));
    assert_eq!(it.next(), None);
}

#[test]
fn oversized_multibyte_is_out_of_buffer_and_fuses() {
    let mut bytes = vec![b'a'];
    bytes.extend(std::iter::repeat(0x80u8).take(MB_LEN_MAX + 4));

    let units = mb(&bytes);
    let mut it = MbsToWcIter2::new(SliceIter::new(&units), AsciiThenEndless);
    assert_eq!(it.next(), Some(Ok(WUnit(0x61))));
    assert_eq!(it.next(), Some(Err(MbsToWcError::OutOfBufferAt(1))));
    assert_eq!(it.next(), None);
    assert_eq!(it.next(), None);
}

#[test]
fn fewer_than_the_maximum_units_without_an_end_are_incomplete() {
    let units = mb(&[0x80u8; 15]);
    let mut it = MbsToWcIter2::new(SliceIter::new(&units), EndlessHost);
    assert_eq!(it.next(), Some(Err(MbsToWcError::Incomplete)));
    assert_eq!(it.next(), None);
    let units = mb(&[0x80u8; 16]);
    let mut it = MbsToWcIter2::new(SliceIter::new(&units), EndlessHost);
    assert_eq!(it.next(), Some(Err(MbsToWcError::OutOfBufferAt(0))));
    assert_eq!(it.next(), None);
}

#[test]
fn embedded_zero_units_are_transcoded() {
    let units = mb(b"a\0b");
    let mut it = MbsToWcIter2::new(SliceIter::new(&units), Utf8Host);
    assert_eq!(it.next(), Some(Ok(WUnit(0x61))));
    assert_eq!(it.next(), Some(Ok(WUnit(0))));
    assert_eq!(it.next(), Some(Ok(WUnit(0x62))));
    assert_eq!(it.next(), None);
}

#[test]
fn wide_to_multibyte_drains_each_group() {
    let units = wide(&[0x67, 0xE7, 0x1F600]);
    let mut it = WcsToMbIter::new(SliceIter::new(&units), Utf8Host);
    let mut out = Vec::new();
    while let Some(item) = it.next() {
        out.push(item.unwrap().to_byte());
    }
    assert_eq!(out, "gç😀".as_bytes());
    assert_eq!(it.next(), None);
}

#[test]
fn illegal_wide_is_invalid_at_its_offset_and_fuses() {
    let units = wide(&[0x67, 0xD800, 0x68]);
    let mut it = WcsToMbIter::new(SliceIter::new(&units), Utf8Host);
    assert_eq!(it.next().map(|r| r.map(|u| u.to_byte())), Some(Ok(0x67)));
    assert_eq!(
        it.next().map(|r| r.map(|u| u.to_byte())),
        Some(Err(WcsToMbError::InvalidAt(1)))
    );
    assert!(it.next().is_none());
    assert!(it.next().is_none());
}

#[test]
fn into_string_reports_the_error_of_either_step() {
    let bad_mb = mb(b"a\xff\0");
    let s = ZMbStr::from_ptr(Some(&bad_mb[..])).unwrap();
    assert_eq!(s.into_string(Utf8Host), Err(MbsToUniError::InvalidAt(1)));

    let some = mb(b"ab\0");
    let s = ZMbStr::from_ptr(Some(&some[..])).unwrap();
    assert_eq!(s.into_string(SurrogateHost), Err(MbsToUniError::InvalidAt(0)));
    let truncated = mb(b"a\xc3\0");
    let s = ZMbStr::from_ptr(Some(&truncated[..])).unwrap();
    assert_eq!(s.into_string(Utf8Host), Err(MbsToUniError::Incomplete));
}

#[test]
fn transcode_to_multibyte_reports_the_transcoding_error() {
    let units = wide(&[0x67, 0x110000, 0]);
    let zwstr: ZWStr = SeStr::from_ptr(Some(&units[..])).unwrap();
    let made: Result<strffi::SeaString<ZeroTerm, strffi::encoding::MultiByte, Malloc>, _> =
        zwstr.transcode_to_multibyte(Utf8Host);
    match made {
        Err(TranscodeError::Transcode(WcsToMbError::InvalidAt(1))) => {}
        _ => panic!("expected InvalidAt(1)"),
    }
    let _ = Wide::Marker;
}

#[test]
fn ownership_transfer_keeps_the_string() {
    let units = mb(b"g\xc2\xaar\xc3\xa7on");
    let owned = ZMbCString::new(&units).unwrap();
    let ptr = owned.into_ptr();
    assert!(ptr.is_some());
    let back = ZMbCString::from_ptr(ptr).unwrap();
    assert_eq!(back.as_units(), &units[..]);
    assert_eq!(back.as_ref().as_units_with_term(), &mb(WORD_MB)[..]);
    assert!(ZMbCString::from_ptr(None).is_none());
    // The storage can also be left to its new owner.
    let leaked = ZMbCString::new(&units).unwrap().into_ptr().unwrap();
    assert_eq!(leaked, mb(WORD_MB));
}

#[test]
fn answers_of_the_host_are_judged() {
    assert_eq!(judge(MbToWc::Illegal, 7), Some(Err(MbsToWcError::InvalidAt(7))));
    assert_eq!(judge(MbToWc::Incomplete, 7), None);
    assert_eq!(judge(MbToWc::Complete(WUnit(0xe7)), 7), Some(Ok(WUnit(0xe7))));
}

#[test]
fn multibyte_transcoder_can_be_driven_by_hand() {
    let units = mb(b"\xc3\xa7a");
    let mut it = MbsToWcIter2::new(SliceIter::new(&units), EndlessHost);
    assert!(matches!(it.pull(), Step::Ask(())));
    assert_eq!(it.asked(), &mb(b"\xc3")[..]);
    assert_eq!(it.settle(MbToWc::Incomplete, it.state()), None);
    assert!(matches!(it.pull(), Step::Ask(())));
    assert_eq!(it.asked(), &mb(b"\xc3\xa7")[..]);
    let state = it.state();
    assert_eq!(it.settle(MbToWc::Complete(WUnit(0xe7)), state), Some(Ok(WUnit(0xe7))));
    assert_eq!(it.asked().len(), 0);
    assert!(matches!(it.pull(), Step::Ask(())));
    assert_eq!(it.asked(), &mb(b"a")[..]);
    assert_eq!(it.settle(MbToWc::Illegal, state), Some(Err(MbsToWcError::InvalidAt(2))));
    assert!(matches!(it.pull(), Step::Item(None)));
    assert_eq!(it.next(), None);
}

#[test]
fn pull_reports_the_end_inside_a_character_and_a_full_buffer() {
    let units = mb(b"\xc3");
    let mut it = MbsToWcIter2::new(SliceIter::new(&units), EndlessHost);
    assert!(matches!(it.pull(), Step::Ask(())));
    assert!(matches!(it.pull(), Step::Item(Some(Err(MbsToWcError::Incomplete)))));
    assert!(matches!(it.pull(), Step::Item(None)));

    let units = mb(&[0x80u8; 20]);
    let mut it = MbsToWcIter2::new(SliceIter::new(&units), EndlessHost);
    for _ in 0..MB_LEN_MAX {
        assert!(matches!(it.pull(), Step::Ask(())));
    }
    assert_eq!(it.asked().len(), MB_LEN_MAX);
    assert!(matches!(it.pull(), Step::Item(Some(Err(MbsToWcError::OutOfBufferAt(0))))));
    assert!(matches!(it.pull(), Step::Item(None)));

    let none = mb(b"");
    let mut it = MbsToWcIter2::new(SliceIter::new(&none), EndlessHost);
    assert!(matches!(it.pull(), Step::Item(None)));
    assert!(matches!(it.pull(), Step::Item(None)));
}

#[test]
fn wide_transcoder_can_be_driven_by_hand() {
    let units = wide(&[0xe7, 0x110000]);
    let mut it = WcsToMbIter::new(SliceIter::new(&units), EndlessHost);
    assert!(matches!(it.pull(), Step::Ask(WUnit(0xe7))));
    // The question stays until it is settled.
    assert!(matches!(it.pull(), Step::Ask(WUnit(0xe7))));
    let group = MbGroup::new(&mb(b"\xc3\xa7")).unwrap();
    let state = it.state();
    assert_eq!(it.settle(WcToMb::Written(group), state), Ok(MbUnit::from_byte(0xc3)));
    match it.pull() {
        Step::Item(Some(Ok(unit))) => assert_eq!(unit.to_byte(), 0xa7),
        _ => panic!("expected the buffered unit"),
    }
    assert!(matches!(it.pull(), Step::Ask(WUnit(0x110000))));
    assert_eq!(it.settle(WcToMb::Illegal, state), Err(WcsToMbError::InvalidAt(1)));
    assert!(matches!(it.pull(), Step::Item(None)));
    assert!(it.next().is_none());
}

#[test]
fn groups_hold_between_one_and_sixteen_units() {
    assert!(MbGroup::new(&[]).is_none());
    assert!(MbGroup::new(&mb(&[b'a'; 17])).is_none());
    let group = MbGroup::new(&mb(&[b'a'; 16])).unwrap();
    assert_eq!(group.len(), 16);
    let group = MbGroup::new(&mb(b"xyz")).unwrap();
    assert_eq!(group.len(), 3);
    assert_eq!(group.get(0), MbUnit(b'x' as i8));
    assert_eq!(group.get(2), MbUnit(b'z' as i8));
    let state = mbstate_t::zeroed();
    assert_eq!(state.to_data(), [0, 0]);
    assert_eq!(mbstate_t::from_data([1, 2]).to_data(), [1, 2]);
}

#[test]
fn multibyte_to_unicode_counts_characters() {
    let units = mb(b"g\xc2\xaa\xff");
    let mut it = MbsToUniIter::new(SliceIter::new(&units), Utf8Host);
    assert_eq!(it.next(), Some(Ok('g')));
    assert_eq!(it.next(), Some(Ok('\u{aa}')));
    assert_eq!(it.next(), Some(Err(MbsToUniError::InvalidAt(3))));
    assert_eq!(it.next(), None);
}

#[test]
fn items_of_the_first_step_are_lifted() {
    assert_eq!(lift(Ok(WUnit(0xe7)), 4), Ok('\u{e7}'));
    assert_eq!(lift(Ok(WUnit(0xD800)), 4), Err(MbsToUniError::InvalidAt(4)));
    assert_eq!(lift(Ok(WUnit(-1)), 0), Err(MbsToUniError::InvalidAt(0)));
    assert_eq!(lift(Err(MbsToWcError::InvalidAt(9)), 4), Err(MbsToUniError::InvalidAt(9)));
    assert_eq!(lift(Err(MbsToWcError::Incomplete), 4), Err(MbsToUniError::Incomplete));
    assert_eq!(
        lift(Err(MbsToWcError::OutOfBufferAt(2)), 4),
        Err(MbsToUniError::OutOfBufferAt(2))
    );
}

#[test]
fn multibyte_units_become_one_wide_unit_for_each_character() {
    let units = mb(b"g\xc2\xaar\xc3\xa7on");
    assert_eq!(mbs_to_wcs(&units, Utf8Host), Ok(wide(&[0x67, 0xAA, 0x72, 0xE7, 0x6F, 0x6E])));
    assert_eq!(mbs_to_wcs(&mb(b"\xf0\x9f\x98\x80"), Utf8Host), Ok(wide(&[0x1F600])));
    assert_eq!(mbs_to_wcs(&[], Utf8Host), Ok(Vec::new()));
    assert_eq!(mbs_to_wcs(&[], EndlessHost), Ok(Vec::new()));
}

#[test]
fn multibyte_units_fail_at_the_offset_of_the_character() {
    assert_eq!(mbs_to_wcs(&mb(b"ab\xffc"), Utf8Host), Err(MbsToWcError::InvalidAt(2)));
    assert_eq!(mbs_to_wcs(&mb(b"\xc3\xa7\xff"), Utf8Host), Err(MbsToWcError::InvalidAt(2)));
    assert_eq!(mbs_to_wcs(&mb(b"a\xc3"), Utf8Host), Err(MbsToWcError::Incomplete));
    assert_eq!(mbs_to_wcs(&mb(b"a"), EndlessHost), Err(MbsToWcError::Incomplete));
    assert_eq!(mbs_to_wcs(&mb(&[0x80u8; 15]), EndlessHost), Err(MbsToWcError::Incomplete));
    assert_eq!(mbs_to_wcs(&mb(&[0x80u8; 16]), EndlessHost), Err(MbsToWcError::OutOfBufferAt(0)));
    let mut units = mb(b"abc");
    units.extend(mb(&[0x80u8; 16]));
    assert_eq!(mbs_to_wcs(&units, AsciiThenEndless), Err(MbsToWcError::OutOfBufferAt(3)));
}

#[test]
fn wide_units_become_up_to_four_units_each() {
    let units = wide(&[0x67, 0xE7, 0x20AC, 0x1F600]);
    assert_eq!(wcs_to_mbs(&units, Utf8Host), Ok(mb("gç€😀".as_bytes())));
    assert_eq!(wcs_to_mbs(&[], Utf8Host), Ok(Vec::new()));
    assert_eq!(wcs_to_mbs(&[], EndlessHost), Ok(Vec::new()));
    assert_eq!(wcs_to_mbs(&wide(&[0x67, 0x68, 0xD800]), Utf8Host), Err(WcsToMbError::InvalidAt(2)));
    assert_eq!(wcs_to_mbs(&wide(&[0x67]), EndlessHost), Err(WcsToMbError::InvalidAt(0)));
}

#[test]
fn transcode_to_wide_reports_the_transcoding_error() {
    let bad = mb(b"ab\xff\0");
    let s = ZMbStr::from_ptr(Some(&bad[..])).unwrap();
    let made: Result<ZWCString, _> = s.deref().transcode_to_wide(Utf8Host);
    assert!(matches!(made, Err(TranscodeError::Transcode(MbsToWcError::InvalidAt(2)))));

    let cut = mb(b"ab\xc3\0");
    let s = ZMbStr::from_ptr(Some(&cut[..])).unwrap();
    let made: Result<ZWCString, _> = s.deref().transcode_to_wide(Utf8Host);
    assert!(matches!(made, Err(TranscodeError::Transcode(MbsToWcError::Incomplete))));

    let mut long = mb(&[0x80u8; 16]);
    long.push(MbUnit(0));
    let s = ZMbStr::from_ptr(Some(&long[..])).unwrap();
    let made: Result<ZWCString, _> = s.deref().transcode_to_wide(EndlessHost);
    assert!(matches!(made, Err(TranscodeError::Transcode(MbsToWcError::OutOfBufferAt(0)))));
}

#[test]
fn transcoded_strings_hold_the_units_and_the_terminator() {
    let word_mb = mb(WORD_MB);
    let s = ZMbStr::from_ptr(Some(&word_mb[..])).unwrap();
    let made: ZWCString = s.deref().transcode_to_wide(Utf8Host).unwrap();
    assert_eq!(made.as_units(), &wide(WORD_W)[..6]);
    assert_eq!(made.as_units_with_term(), &wide(WORD_W)[..]);

    let word_w = wide(WORD_W);
    let s: ZWStr = SeStr::from_ptr(Some(&word_w[..])).unwrap();
    let made = ZMbCString::from(s.transcode_to_multibyte(Utf8Host).unwrap());
    assert_eq!(made.as_units(), &mb(WORD_MB)[..8]);
    assert_eq!(made.as_ref().as_units_with_term(), &mb(WORD_MB)[..]);

    let empty = mb(b"\0");
    let s = ZMbStr::from_ptr(Some(&empty[..])).unwrap();
    let made: ZWCString = s.deref().transcode_to_wide(EndlessHost).unwrap();
    assert_eq!(made.as_units().len(), 0);
    assert_eq!(made.as_units_with_term(), &wide(&[0])[..]);
}

#[test]
fn from_str_gives_the_units_of_the_host_or_its_error() {
    let made = ZMbCString::from_str("g€😀", Utf8Host).unwrap();
    assert_eq!(made.as_units(), &mb("g€😀".as_bytes())[..]);
    assert_eq!(made.as_ref().as_units_with_term().len(), 9);
    let made = ZMbCString::from_str("", EndlessHost).unwrap();
    assert_eq!(made.as_units().len(), 0);
    assert!(matches!(
        ZMbCString::from_str("ab", EndlessHost),
        Err(TranscodeError::Transcode(WcsToMbError::InvalidAt(0)))
    ));
    let made: Result<strffi::SeaString<ZeroTerm, strffi::encoding::MultiByte, Malloc>, _> =
        strffi::SeaString::from_str_by("a\u{e7}", AsciiOnly);
    assert!(matches!(made, Err(TranscodeError::Transcode(WcsToMbError::InvalidAt(1)))));
}
