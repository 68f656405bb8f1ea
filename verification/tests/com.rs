use makepad_logic::com::{
    FormatEtc, CF_HDROP, DATADIR_GET, DATA_S_SAMEFORMATETC, DVASPECT_CONTENT, DV_E_DVASPECT,
    DV_E_FORMATETC, DV_E_LINDEX, DV_E_TYMED, E_NOTIMPL, E_UNEXPECTED, OLE_E_ADVISENOTSUPPORTED,
    S_FALSE, S_OK, TYMED_HGLOBAL,
};
use makepad_logic::data_object::{DragItem, DragItemWindows, StgMedium};
use makepad_logic::enum_format_etc::EnumFormatEtc;

fn hdrop() -> FormatEtc {
    FormatEtc {
        cf_format: CF_HDROP,
        target_device: None,
        aspect: DVASPECT_CONTENT,
        lindex: -1,
        tymed: TYMED_HGLOBAL,
    }
}

fn fmt(n: u16) -> FormatEtc {
    FormatEtc { cf_format: n, ..hdrop() }
}

fn item() -> DragItemWindows {
    DragItemWindows(DragItem { paths: vec!["C:\\a.txt".to_string()] })
}

#[test]
fn result_codes_have_their_windows_values() {
    assert_eq!(E_UNEXPECTED as u32, 0x8000FFFF);
    assert_eq!(E_NOTIMPL as u32, 0x80004001);
    assert_eq!(DV_E_FORMATETC as u32, 0x80040064);
    assert_eq!(DV_E_DVASPECT as u32, 0x8004006B);
    assert_eq!(DV_E_LINDEX as u32, 0x80040068);
    assert_eq!(DV_E_TYMED as u32, 0x80040069);
    assert_eq!(OLE_E_ADVISENOTSUPPORTED as u32, 0x80040003);
    assert_eq!(DATA_S_SAMEFORMATETC, 0x00040130);
}

#[test]
fn next_hands_out_in_order_then_s_false() {
    let mut e = EnumFormatEtc::new(vec![fmt(1), fmt(2), fmt(3)]);
    let (hr, got) = e.next(2);
    assert_eq!(hr, S_OK);
    assert_eq!(got, vec![fmt(1), fmt(2)]);
    assert_eq!(e.index, 2);
    let (hr, got) = e.next(5);
    assert_eq!(hr, S_OK);
    assert_eq!(got, vec![fmt(3)]);
    let (hr, got) = e.next(1);
    assert_eq!(hr, S_FALSE);
    assert!(got.is_empty());
    assert_eq!(e.index, 3);
}

#[test]
fn next_of_zero_is_s_false() {
    let mut e = EnumFormatEtc::new(vec![fmt(1)]);
    let (hr, got) = e.next(0);
    assert_eq!(hr, S_FALSE);
    assert!(got.is_empty());
    assert_eq!(e.index, 0);
}

#[test]
fn skip_moves_like_next() {
    let mut a = EnumFormatEtc::new(vec![fmt(1), fmt(2), fmt(3)]);
    let mut b = EnumFormatEtc::new(vec![fmt(1), fmt(2), fmt(3)]);
    assert_eq!(a.skip(2), Ok(()));
    b.next(2);
    assert_eq!(a.index, b.index);
    assert_eq!(a.skip(10), Ok(()));
    assert_eq!(a.index, 3);
}

#[test]
fn reset_then_next_gives_all() {
    let mut e = EnumFormatEtc::new(vec![fmt(1), fmt(2)]);
    e.next(2);
    assert_eq!(e.reset(), Ok(()));
    assert_eq!(e.index, 0);
    let (hr, got) = e.next(2);
    assert_eq!(hr, S_OK);
    assert_eq!(got, vec![fmt(1), fmt(2)]);
    assert_eq!(e.next(1).0, S_FALSE);
}

#[test]
fn clone_of_enumerator_is_refused() {
    let e = EnumFormatEtc::new(vec![fmt(1)]);
    assert!(matches!(e.clone_enum(), Err(c) if c == E_UNEXPECTED));
}

#[test]
fn query_get_data_codes() {
    let d = item();
    assert_eq!(d.query_get_data(None), DV_E_FORMATETC);
    assert_eq!(d.query_get_data(Some(hdrop())), S_OK);
    assert_eq!(d.query_get_data(Some(fmt(1))), DV_E_FORMATETC);
    assert_eq!(d.query_get_data(Some(FormatEtc { aspect: 4, ..hdrop() })), DV_E_DVASPECT);
    assert_eq!(d.query_get_data(Some(FormatEtc { lindex: 0, ..hdrop() })), DV_E_LINDEX);
    assert_eq!(d.query_get_data(Some(FormatEtc { tymed: 4, ..hdrop() })), DV_E_TYMED);
    // the format is checked before the aspect
    assert_eq!(d.query_get_data(Some(FormatEtc { cf_format: 1, aspect: 4, ..hdrop() })), DV_E_FORMATETC);
}

#[test]
fn get_data_agrees_with_query() {
    let d = item();
    assert_eq!(
        d.get_data(Some(hdrop()), Some(0x1234)),
        Ok(StgMedium { tymed: TYMED_HGLOBAL, hglobal: 0x1234 })
    );
    assert_eq!(d.get_data(Some(hdrop()), None), Err(E_UNEXPECTED));
    assert_eq!(d.get_data(None, Some(1)), Err(DV_E_FORMATETC));
    assert_eq!(d.get_data(Some(FormatEtc { tymed: 4, ..hdrop() }), Some(1)), Err(DV_E_TYMED));
}

#[test]
fn canonical_format_drops_the_device() {
    let d = item();
    let with_device = FormatEtc { target_device: Some(0xbeef), ..hdrop() };
    assert_eq!(d.get_canonical_format_etc(Some(with_device)), (DATA_S_SAMEFORMATETC, Some(hdrop())));
    assert_eq!(d.get_canonical_format_etc(None), (DV_E_FORMATETC, None));
}

#[test]
fn enumerated_formats_are_accepted() {
    let d = item();
    let mut e = d.enum_format_etc(DATADIR_GET).ok().unwrap();
    let (hr, got) = e.next(10);
    assert_eq!(hr, S_OK);
    assert_eq!(got, vec![hdrop()]);
    for f in got {
        assert_eq!(d.query_get_data(Some(f)), S_OK);
    }
    assert!(matches!(d.enum_format_etc(2), Err(c) if c == E_NOTIMPL));
}

#[test]
fn unsupported_operations() {
    let d = item();
    let m = StgMedium { tymed: TYMED_HGLOBAL, hglobal: 1 };
    assert_eq!(d.get_data_here(Some(hdrop()), m), Err(E_NOTIMPL));
    assert_eq!(d.set_data(Some(hdrop()), m, true), Err(E_NOTIMPL));
    assert_eq!(d.d_advise(Some(hdrop()), 0), Err(OLE_E_ADVISENOTSUPPORTED));
    assert_eq!(d.d_unadvise(3), Err(OLE_E_ADVISENOTSUPPORTED));
    assert_eq!(d.enum_d_advise(), Err(OLE_E_ADVISENOTSUPPORTED));
}

#[test]
fn reset_starts_over_after_any_calls() {
    let mut e = EnumFormatEtc::new(vec![fmt(1), fmt(2), fmt(3)]);
    e.skip(1).unwrap();
    e.next(1);
    let _ = e.clone_enum();
    e.skip(7).unwrap();
    assert_eq!(e.index, 3);
    assert_eq!(e.formats, vec![fmt(1), fmt(2), fmt(3)]);
    e.reset().unwrap();
    let (hr, got) = e.next(3);
    assert_eq!(hr, S_OK);
    assert_eq!(got, vec![fmt(1), fmt(2), fmt(3)]);
}
