use strffi::{SeStr, SeaString};
use strffi::allocator::{Malloc, Rust};
use strffi::encoding::{MbUnit, MultiByte, Utf8, Utf8Unit, WUnit, Wide};
use strffi::encoding::conv::always_ok;
use strffi::encoding::conv::linux::UniToWcIter;
use strffi::iter::{SliceIter, Source, VecIter};
use strffi::structure::{Slice, Structure, ZeroTerm};
use strffi::util::gather;

fn u8s(bytes: &[u8]) -> Vec<Utf8Unit> {
    bytes.iter().map(|b| Utf8Unit(*b)).collect()
}

#[test]
fn mutable_view_of_a_slice_writes_through() {
    let mut units = u8s(b"abc");
    {
        let view = SeStr::<Slice, Utf8>::new_mut(&mut units);
        assert_eq!(view.as_ref().as_units(), &u8s(b"abc")[..]);
        let slice = view.as_units_mut();
        slice[0] = Utf8Unit(b'x');
    }
    assert_eq!(units, u8s(b"xbc"));
    {
        let view = SeStr::<Slice, Utf8>::new_mut(&mut units);
        let again = view.as_slice_mut();
        again.as_units_mut_unsafe()[2] = Utf8Unit(0);
    }
    assert_eq!(units, u8s(b"xb\0"));
}

#[test]
fn mutable_view_of_a_terminated_string_leaves_the_terminator() {
    let mut region = u8s(b"abc\0tail");
    {
        let view = SeStr::<ZeroTerm, Utf8>::from_ptr_mut(Some(&mut region[..])).unwrap();
        assert_eq!(view.as_ref().as_units().len(), 3);
        let units = view.as_units_mut_unsafe();
        assert_eq!(units.len(), 3);
        units[2] = Utf8Unit(b'!');
    }
    assert_eq!(region, u8s(b"ab!\0tail"));
    {
        let view = SeStr::<ZeroTerm, Utf8>::from_ptr_mut(Some(&mut region[..])).unwrap();
        let slice = view.as_slice_mut_unsafe();
        assert_eq!(slice.as_ref().as_units(), &u8s(b"ab!")[..]);
        slice.as_units_mut()[1] = Utf8Unit(0);
    }
    let s: SeStr<ZeroTerm, Utf8> = SeStr::from_ptr(Some(&region[..])).unwrap();
    assert_eq!(s.as_units(), &u8s(b"a")[..]);
    assert!(SeStr::<ZeroTerm, Utf8>::from_ptr_mut(None).is_none());
    assert!(<Slice as Structure<Utf8>>::borrow_from_ffi_ptr_mut(None).is_none());
}

#[test]
fn mutable_pointer_is_the_region() {
    let mut region = u8s(b"ab\0");
    let view = SeStr::<ZeroTerm, Utf8>::from_ptr_mut(Some(&mut region[..])).unwrap();
    let ptr = view.as_ptr_mut().unwrap();
    assert_eq!(ptr.len(), 3);
    ptr[0] = Utf8Unit(b'z');
    assert_eq!(region, u8s(b"zb\0"));
    let mut other = u8s(b"q");
    let ptr = <Slice as Structure<Utf8>>::as_ffi_ptr_mut(&mut other).unwrap();
    ptr[0] = Utf8Unit(b'r');
    assert_eq!(other, u8s(b"r"));
}

#[test]
fn owned_string_borrows_mutably() {
    let mut owned: SeaString<ZeroTerm, MultiByte, Malloc> =
        SeaString::new(&[MbUnit(0x61), MbUnit(0x62)]).unwrap();
    {
        let view = owned.as_mut();
        view.as_units_mut_unsafe()[1] = MbUnit(0x63);
    }
    assert_eq!(owned.as_units(), &[MbUnit(0x61), MbUnit(0x63)][..]);
    assert_eq!(owned.as_units_with_term().len(), 3);
}

#[test]
fn strings_are_made_of_the_units_of_a_source() {
    let units = [WUnit(1), WUnit(2), WUnit(3)];
    let made: SeaString<ZeroTerm, Wide, Rust> =
        SeaString::from_iter(SliceIter::new(&units)).unwrap();
    assert_eq!(made.as_units(), &units[..]);
    assert_eq!(made.as_units_with_term().len(), 4);
    let empty: SeaString<Slice, Wide, Rust> =
        SeaString::from_iter(VecIter::new(Vec::new())).unwrap();
    assert_eq!(empty.as_units().len(), 0);
}

#[test]
fn gather_takes_every_item() {
    let chars = ['a', 'b'];
    let mut it = UniToWcIter::new(SliceIter::new(&chars));
    let items: Vec<WUnit> = gather(&mut it).into_iter().map(always_ok).collect();
    assert_eq!(items, vec![WUnit(0x61), WUnit(0x62)]);
    assert!(it.next().is_none());
    let none: [u8; 0] = [];
    assert_eq!(gather(&mut SliceIter::new(&none)), Vec::<u8>::new());
}
