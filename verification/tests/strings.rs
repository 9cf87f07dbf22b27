use std::cmp::Ordering;
use strffi::{SeStr, SeaString, ZMbCString, ZMbStr};
use strffi::allocator::{
    zeroed_storage, AllocError, Allocator, AllocatorError, Malloc, Rust,
};
use strffi::encoding::{
    CheckedUnicode, Encoding, MbUnit, MultiByte, Unit, Utf16, Utf16Unit, Utf32, Utf32Unit, Utf8,
    Utf8Unit, WUnit, Wide,
};
use strffi::order::compare;
use strffi::structure::{
    OwnershipTransfer, Slice, Structure, StructureAlloc, StructureDefault, ZeroTerm,
    ZeroTerminated,
};

fn mb(bytes: &[u8]) -> Vec<MbUnit> {
    bytes.iter().map(|b| MbUnit::from_byte(*b)).collect()
}

fn u8s(bytes: &[u8]) -> Vec<Utf8Unit> {
    bytes.iter().map(|b| Utf8Unit(*b)).collect()
}

#[test]
fn zero_terminated_string_ends_before_the_first_zero() {
    let region = u8s(b"abc\0def\0");
    let s: SeStr<ZeroTerm, Utf8> = SeStr::from_ptr(Some(&region[..])).unwrap();
    assert_eq!(s.as_units(), &u8s(b"abc")[..]);
    assert_eq!(s.as_units_with_term(), &u8s(b"abc\0")[..]);
    assert_eq!(s.as_slice().as_units(), &u8s(b"abc")[..]);
    assert_eq!(s.as_ptr().unwrap().len(), 8);
    let only = u8s(b"\0");
    let s: SeStr<ZeroTerm, Utf8> = SeStr::from_ptr(Some(&only[..])).unwrap();
    assert_eq!(s.as_units().len(), 0);
    assert_eq!(s.as_units_with_term(), &u8s(b"\0")[..]);
}

#[test]
fn null_is_no_string() {
    assert!(SeStr::<ZeroTerm, Utf8>::from_ptr(None).is_none());
    assert!(SeStr::<Slice, Utf8>::from_ptr(None).is_none());
    assert!(ZMbStr::from_ptr(None).is_none());
    assert!(SeaString::<ZeroTerm, Utf8, Malloc>::from_ptr(None).is_none());
    assert!(SeaString::<Slice, Utf8, Malloc>::from_ptr(None).is_none());
    assert_eq!(<ZeroTerm as Structure<Utf8>>::borrow_from_ffi_ptr(None), None);
    assert_eq!(<ZeroTerm as OwnershipTransfer<Utf8>>::owned_from_ffi_ptr(None), None);
}

#[test]
fn slice_string_is_its_units() {
    let units = u8s(b"a\0b");
    let s: SeStr<Slice, Utf8> = SeStr::new(&units);
    assert_eq!(s.as_units(), &units[..]);
    assert_eq!(s.as_ptr(), Some(&units[..]));
    let empty: [Utf8Unit; 0] = [];
    let s: SeStr<Slice, Utf8> = SeStr::from_ptr(Some(&empty[..])).unwrap();
    assert_eq!(s.as_units().len(), 0);
}

#[test]
fn default_is_empty() {
    assert_eq!(SeStr::<ZeroTerm, MultiByte>::default().as_units().len(), 0);
    assert_eq!(SeStr::<Slice, MultiByte>::default().as_units().len(), 0);
    assert_eq!(SeStr::<ZeroTerm, CheckedUnicode>::default().as_units().len(), 0);
    assert_eq!(<ZeroTerm as StructureDefault<Wide>>::default()[0], WUnit(0));
    assert_eq!(<Slice as StructureDefault<Wide>>::default().len(), 0);
    let z: SeaString<ZeroTerm, Wide, Malloc> = SeaString::try_default().unwrap();
    assert_eq!(z.as_units().len(), 0);
    assert_eq!(z.as_units_with_term(), &[WUnit(0)][..]);
    let s: SeaString<Slice, Wide, Rust> = SeaString::try_default().unwrap();
    assert_eq!(s.as_units().len(), 0);
}

#[test]
fn static_zeroes_are_two_zero_units() {
    assert_eq!(MultiByte::static_zeroes(), &[MbUnit(0), MbUnit(0)][..]);
    assert_eq!(Wide::static_zeroes(), &[WUnit(0), WUnit(0)][..]);
    assert_eq!(Utf8::static_zeroes(), &[Utf8Unit(0), Utf8Unit(0)][..]);
    assert_eq!(Utf16::static_zeroes(), &[Utf16Unit(0), Utf16Unit(0)][..]);
    assert_eq!(Utf32::static_zeroes(), &[Utf32Unit(0), Utf32Unit(0)][..]);
    assert_eq!(CheckedUnicode::static_zeroes(), &['\0', '\0'][..]);
    assert!(Utf32Unit::zero().is_zero());
    assert!('\0'.is_zero());
    assert!(!'0'.is_zero());
    assert_eq!(char::zero(), '\0');
}

#[test]
fn allocation_appends_a_terminator_unless_there_is_one() {
    let owned: SeaString<ZeroTerm, Utf8, Malloc> = SeaString::new(&u8s(b"abc")).unwrap();
    assert_eq!(owned.as_units(), &u8s(b"abc")[..]);
    assert_eq!(owned.as_units_with_term(), &u8s(b"abc\0")[..]);
    assert_eq!(owned.into_ptr().unwrap(), u8s(b"abc\0"));
    let owned: SeaString<ZeroTerm, Utf8, Malloc> = SeaString::new(&u8s(b"abc\0")).unwrap();
    assert_eq!(owned.into_ptr().unwrap(), u8s(b"abc\0"));
    let owned: SeaString<ZeroTerm, Utf8, Malloc> = SeaString::new(&[]).unwrap();
    assert_eq!(owned.into_ptr().unwrap(), u8s(b"\0"));
    let stored = <ZeroTerm as StructureAlloc<Utf8, Rust>>::alloc_owned(&u8s(b"ab")).unwrap();
    assert_eq!(stored, u8s(b"ab\0"));
}

#[test]
fn interior_zero_is_stored_and_ends_the_string() {
    let owned: SeaString<ZeroTerm, Utf8, Malloc> = SeaString::new(&u8s(b"a\0b")).unwrap();
    assert_eq!(owned.as_units(), &u8s(b"a")[..]);
    assert_eq!(owned.into_ptr().unwrap(), u8s(b"a\0b\0"));
}

#[test]
fn slice_allocation_keeps_every_unit() {
    let units = u8s(b"a\0b\0");
    let owned: SeaString<Slice, Utf8, Rust> = SeaString::new(&units).unwrap();
    assert_eq!(owned.as_units(), &units[..]);
    assert_eq!(owned.into_ptr().unwrap(), units);
    let stored = <Slice as StructureAlloc<Utf8, Malloc>>::alloc_owned(&units).unwrap();
    assert_eq!(stored, units);
}

#[test]
fn to_owned_and_clone_copy_the_units() {
    let region = mb(b"abc\0");
    let s = ZMbStr::from_ptr(Some(&region[..])).unwrap();
    let owned = s.to_owned().unwrap();
    assert_eq!(owned.as_units(), &mb(b"abc")[..]);
    let inner = owned.into_inner();
    let copy = inner.try_clone().unwrap();
    assert!(copy.eq(&inner));
    assert_eq!(copy.into_ptr().unwrap(), region);
    let by: SeaString<ZeroTerm, MultiByte, Rust> = s.deref().to_owned_by().unwrap();
    assert_eq!(by.as_units_with_term(), &region[..]);
    by.free();
}

#[test]
fn ownership_transfer_round_trip() {
    let units = u8s(b"abc");
    let owned: SeaString<Slice, Utf8, Malloc> = SeaString::new(&units).unwrap();
    let ptr = owned.into_ptr();
    let back: SeaString<Slice, Utf8, Malloc> = SeaString::from_ptr(ptr).unwrap();
    assert_eq!(back.as_units(), &units[..]);
    let mut storage = u8s(b"xy\0");
    let ptr = <ZeroTerm as OwnershipTransfer<Utf8>>::into_ffi_ptr(&mut storage);
    assert_eq!(ptr, Some(u8s(b"xy\0")));
    assert!(storage.is_empty());
}

#[test]
fn borrowed_from_pointer_and_from_owned_are_the_same_string() {
    let owned: SeaString<ZeroTerm, Utf8, Malloc> = SeaString::new(&u8s(b"abc")).unwrap();
    let a = owned.as_ref();
    let b: SeStr<ZeroTerm, Utf8> = SeStr::from_ptr(a.as_ptr()).unwrap();
    assert_eq!(a.as_units(), b.as_units());
    assert!(a.eq(&b));
}

#[test]
fn mutation_of_a_slice_string_keeps_its_length() {
    let mut owned: SeaString<Slice, Utf8, Malloc> = SeaString::new(&u8s(b"abc")).unwrap();
    owned.set_unit(1, Utf8Unit(0));
    assert_eq!(owned.as_units(), &u8s(b"a\0c")[..]);
    owned.as_units_mut()[2] = Utf8Unit(b'z');
    assert_eq!(owned.as_units(), &u8s(b"a\0z")[..]);
    owned.as_units_mut_unsafe()[0] = Utf8Unit(b'y');
    assert_eq!(owned.as_units(), &u8s(b"y\0z")[..]);
}

#[test]
fn writing_a_zero_into_a_terminated_string_truncates_it() {
    let mut owned = ZMbCString::new(&mb(b"abcd")).unwrap();
    owned.as_units_mut_unsafe()[0] = MbUnit(b'x' as i8);
    assert_eq!(owned.as_units(), &mb(b"xbcd")[..]);
    owned.as_units_mut_unsafe()[2] = MbUnit(0);
    assert_eq!(owned.as_units(), &mb(b"xb")[..]);
    assert_eq!(owned.as_ref().as_units_with_term(), &mb(b"xb\0")[..]);
    assert_eq!(owned.into_ptr().unwrap(), mb(b"xb\0d\0"));
    let mut region = u8s(b"hello\0rest\0");
    {
        let units = <ZeroTerm as Structure<Utf8>>::slice_units_mut(&mut region);
        assert_eq!(units.len(), 5);
        units[4] = Utf8Unit(b'!');
    }
    assert_eq!(region, u8s(b"hell!\0rest\0"));
    assert_eq!(
        <ZeroTerm as ZeroTerminated<Utf8>>::slice_units_with_term(&region),
        &u8s(b"hell!\0")[..]
    );
}

#[test]
fn equality_and_order_go_by_units() {
    let a = u8s(b"abc\0");
    let b = u8s(b"abc");
    let z: SeStr<ZeroTerm, Utf8> = SeStr::from_ptr(Some(&a[..])).unwrap();
    let s: SeStr<Slice, Utf8> = SeStr::new(&b);
    assert!(z.eq(&s));
    assert!(s.eq(&z));
    assert_eq!(z.cmp(&s), Ordering::Equal);
    assert_eq!(z.partial_cmp(&s), Some(Ordering::Equal));
    let shorter: SeStr<Slice, Utf8> = SeStr::new(&b[..2]);
    assert!(!z.eq(&shorter));
    assert_eq!(shorter.cmp(&z), Ordering::Less);
    assert_eq!(z.cmp(&shorter), Ordering::Greater);
    assert_eq!(compare(&u8s(b"abd"), &u8s(b"abcz")), Ordering::Greater);
    assert_eq!(compare(&u8s(b"ab"), &u8s(b"b")), Ordering::Less);
    assert_eq!(compare::<Utf8Unit>(&[], &[]), Ordering::Equal);
    assert_eq!(compare(&[], &u8s(b"a")), Ordering::Less);
    // Multibyte units are signed: 0xE7 orders before 'a'.
    assert_eq!(compare(&mb(b"\xe7"), &mb(b"a")), Ordering::Less);
    assert_eq!(compare(&u8s(b"\xe7"), &u8s(b"a")), Ordering::Greater);
    let x: SeaString<Slice, Utf8, Malloc> = SeaString::new(&u8s(b"abc")).unwrap();
    let y: SeaString<ZeroTerm, Utf8, Rust> = SeaString::new(&u8s(b"abd")).unwrap();
    assert!(!x.eq(&y));
    assert_eq!(x.cmp(&y), Ordering::Less);
    assert_eq!(y.partial_cmp(&x), Some(Ordering::Greater));
    assert!(Utf8Unit(1).lt_unit(&Utf8Unit(2)));
    assert!(!Utf8Unit(2).lt_unit(&Utf8Unit(2)));
    assert!(MbUnit(-1).lt_unit(&MbUnit(0)));
    assert!(WUnit(7).eq_unit(&WUnit(7)));
}

#[test]
fn allocators_refuse_what_they_cannot_align() {
    let word = std::mem::align_of::<usize>();
    assert_eq!(Malloc::alloc_bytes::<Utf8Unit>(4, 4, word * 2), Err(AllocError::CannotAlign));
    assert_eq!(Malloc::alloc_bytes::<Utf8Unit>(4, 4, word), Ok(vec![Utf8Unit(0); 4]));
    assert_eq!(Rust::alloc_bytes::<Utf8Unit>(4, 4, 16), Err(AllocError::CannotAlign));
    assert_eq!(Rust::alloc_bytes::<Utf8Unit>(3, 3, 8), Ok(vec![Utf8Unit(0); 3]));
    assert_eq!(
        Rust::alloc_bytes::<Utf8Unit>(usize::MAX, usize::MAX, 1),
        Err(AllocError::SizeOverflow)
    );
    assert_eq!(<AllocError as AllocatorError>::overflow(), AllocError::SizeOverflow);
    Malloc::free(vec![Utf8Unit(0)], 1);
    assert_eq!(Malloc::debug_prefix(), "C");
    assert_eq!(Rust::debug_prefix(), "R");
}

#[test]
fn storage_without_units_is_always_there() {
    assert_eq!(zeroed_storage::<Utf8Unit>(0), Some(Vec::new()));
    assert_eq!(zeroed_storage::<WUnit>(3), Some(vec![WUnit(0); 3]));
    assert_eq!(zeroed_storage::<Utf8Unit>(usize::MAX), None);
}

#[test]
fn allocation_fails_where_no_memory_is_found() {
    assert_eq!(
        Malloc::alloc_bytes::<Utf8Unit>(usize::MAX, usize::MAX, 1),
        Err(AllocError::Failed)
    );
    let half = usize::MAX / 2;
    assert_eq!(Rust::alloc_bytes::<Utf8Unit>(half, half, 1), Err(AllocError::Failed));
}

#[test]
fn allocation_errors_say_what_they_are() {
    assert_eq!(AllocError::Failed.description(), "failed to allocate memory");
    assert_eq!(AllocError::CannotAlign.description(), "cannot satisfy requested alignment");
    assert_eq!(AllocError::SizeOverflow.to_string(), "overflow while computing size");
}
