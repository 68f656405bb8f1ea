//! The `IDataObject` that a drag started from the application offers to
//! Windows: one format, a file list in global memory.
use crate::com::{
    hdrop_format, hdrop_format_etc, FormatEtc, CF_HDROP, DATADIR_GET, DATA_S_SAMEFORMATETC,
    DVASPECT_CONTENT, DV_E_DVASPECT, DV_E_FORMATETC, DV_E_LINDEX, DV_E_TYMED, E_NOTIMPL,
    E_UNEXPECTED, OLE_E_ADVISENOTSUPPORTED, S_OK, TYMED_HGLOBAL,
};
use crate::enum_format_etc::{EnumFormatEtc, EnumView};
use vstd::prelude::*;

verus! {

/// What is dragged: the paths of the files.
pub struct DragItem {
    pub paths: Vec<String>,
}

/// A dragged item, as the data object that Windows reads it through.
pub struct DragItemWindows(pub DragItem);

/// A `STGMEDIUM` that holds a global memory handle.
#[derive(Clone, Copy, Debug, PartialEq, Eq, Structural)]
pub struct StgMedium {
    pub tymed: u32,
    pub hglobal: usize,
}

/// The answer to `QueryGetData` for a format (`None` where the pointer is null):
/// `S_OK` for the file-list format, else the code for the first field that differs.
pub open spec fn query_result(format: Option<FormatEtc>) -> i32 {
    match format {
        None => DV_E_FORMATETC,
        Some(f) => if f.cf_format != CF_HDROP {
            DV_E_FORMATETC
        } else if f.aspect != DVASPECT_CONTENT {
            DV_E_DVASPECT
        } else if f.lindex != -1 {
            DV_E_LINDEX
        } else if f.tymed != TYMED_HGLOBAL {
            DV_E_TYMED
        } else {
            S_OK
        },
    }
}

/// The answer to `GetData` for a format, given the handle made for the item.
pub open spec fn get_data_result(format: Option<FormatEtc>, hglobal: Option<usize>) -> Result<
    StgMedium,
    i32,
> {
    if query_result(format) != S_OK {
        Err(query_result(format))
    } else {
        match hglobal {
            Some(h) => Ok(StgMedium { tymed: TYMED_HGLOBAL, hglobal: h }),
            None => Err(E_UNEXPECTED),
        }
    }
}

impl DragItemWindows {
    /// `QueryGetData`.
    pub fn query_get_data(&self, format: Option<FormatEtc>) -> (r: i32)
        ensures
            r == query_result(format),
    {
        match format {
            None => DV_E_FORMATETC,
            Some(f) => {
                if f.cf_format != CF_HDROP {
                    DV_E_FORMATETC
                } else if f.aspect != DVASPECT_CONTENT {
                    DV_E_DVASPECT
                } else if f.lindex != -1 {
                    DV_E_LINDEX
                } else if f.tymed != TYMED_HGLOBAL {
                    DV_E_TYMED
                } else {
                    S_OK
                }
            },
        }
    }

    /// `GetData`. `hglobal` is the handle to the file list that was made for
    /// this item once the format was accepted, `None` where making it failed.
    pub fn get_data(&self, format: Option<FormatEtc>, hglobal: Option<usize>) -> (r: Result<
        StgMedium,
        i32,
    >)
        ensures
            r == get_data_result(format, hglobal),
    {
        let q = self.query_get_data(format);
        if q != S_OK {
            Err(q)
        } else {
            match hglobal {
                Some(h) => Ok(StgMedium { tymed: TYMED_HGLOBAL, hglobal: h }),
                None => Err(E_UNEXPECTED),
            }
        }
    }

    /// `GetDataHere`: not offered.
    pub fn get_data_here(&self, format: Option<FormatEtc>, medium: StgMedium) -> (r: Result<(), i32>)
        ensures
            r == Err::<(), i32>(E_NOTIMPL),
    {
        Err(E_NOTIMPL)
    }

    /// `GetCanonicalFormatEtc`: the same format without a target device, and
    /// `DATA_S_SAMEFORMATETC`; `DV_E_FORMATETC` with no output where none is given.
    pub fn get_canonical_format_etc(&self, format_in: Option<FormatEtc>) -> (r: (
        i32,
        Option<FormatEtc>,
    ))
        ensures
            r == match format_in {
                None => (DV_E_FORMATETC, None),
                Some(f) => (DATA_S_SAMEFORMATETC, Some(FormatEtc { target_device: None, ..f })),
            },
    {
        match format_in {
            None => (DV_E_FORMATETC, None),
            Some(f) => {
                let out = FormatEtc {
                    cf_format: f.cf_format,
                    target_device: None,
                    aspect: f.aspect,
                    lindex: f.lindex,
                    tymed: f.tymed,
                };
                (DATA_S_SAMEFORMATETC, Some(out))
            },
        }
    }

    /// `SetData`: not offered.
    pub fn set_data(&self, format: Option<FormatEtc>, medium: StgMedium, release: bool) -> (r:
        Result<(), i32>)
        ensures
            r == Err::<(), i32>(E_NOTIMPL),
    {
        Err(E_NOTIMPL)
    }

    /// `EnumFormatEtc`: for `DATADIR_GET`, an enumerator at the start of the
    /// one offered format; `E_NOTIMPL` for any other direction.
    pub fn enum_format_etc(&self, direction: u32) -> (r: Result<EnumFormatEtc, i32>)
        ensures
            direction != DATADIR_GET ==> (r matches Err(code) && code == E_NOTIMPL),
            direction == DATADIR_GET ==> (r matches Ok(e) && e@ == (EnumView {
                formats: seq![hdrop_format()],
                index: 0,
            })),
    {
        if direction != DATADIR_GET {
            Err(E_NOTIMPL)
        } else {
            let mut formats: Vec<FormatEtc> = Vec::new();
            formats.push(hdrop_format_etc());
            assert(formats@ =~= seq![hdrop_format()]);
            Ok(EnumFormatEtc::new(formats))
        }
    }

    /// `DAdvise`: not supported.
    pub fn d_advise(&self, format: Option<FormatEtc>, advf: u32) -> (r: Result<u32, i32>)
        ensures
            r == Err::<u32, i32>(OLE_E_ADVISENOTSUPPORTED),
    {
        Err(OLE_E_ADVISENOTSUPPORTED)
    }

    /// `DUnadvise`: not supported.
    pub fn d_unadvise(&self, connection: u32) -> (r: Result<(), i32>)
        ensures
            r == Err::<(), i32>(OLE_E_ADVISENOTSUPPORTED),
    {
        Err(OLE_E_ADVISENOTSUPPORTED)
    }

    /// `EnumDAdvise`: not supported.
    pub fn enum_d_advise(&self) -> (r: Result<(), i32>)
        ensures
            r == Err::<(), i32>(OLE_E_ADVISENOTSUPPORTED),
    {
        Err(OLE_E_ADVISENOTSUPPORTED)
    }
}

/// `GetData` hands out data exactly for the formats that `QueryGetData`
/// accepts, and for a refused format fails with the code that query gives.
pub proof fn law_get_data_agrees_with_query(format: Option<FormatEtc>, hglobal: Option<usize>)
    ensures
        get_data_result(format, hglobal) is Ok <==> (query_result(format) == S_OK && hglobal is Some),
        query_result(format) != S_OK ==> get_data_result(format, hglobal) == Err::<StgMedium, i32>(
            query_result(format),
        ),
        get_data_result(format, hglobal) matches Ok(m) ==> m.tymed == TYMED_HGLOBAL,
{
}

/// `QueryGetData` accepts exactly the file-list format: clipboard format
/// `CF_HDROP`, content aspect, index -1, global memory; any format with another
/// clipboard format gets `DV_E_FORMATETC`, from `GetData` too.
pub proof fn law_only_hdrop_is_accepted(f: FormatEtc, hglobal: Option<usize>)
    ensures
        query_result(Some(f)) == S_OK <==> (f.cf_format == CF_HDROP && f.aspect == DVASPECT_CONTENT
            && f.lindex == -1 && f.tymed == TYMED_HGLOBAL),
        f.cf_format != CF_HDROP ==> query_result(Some(f)) == DV_E_FORMATETC,
        f.cf_format != CF_HDROP ==> get_data_result(Some(f), hglobal) == Err::<StgMedium, i32>(
            DV_E_FORMATETC,
        ),
        query_result(None) == DV_E_FORMATETC,
{
}

/// Every format that the object enumerates is one that it accepts.
pub proof fn law_enumerated_formats_are_accepted()
    ensures
        query_result(Some(hdrop_format())) == S_OK,
{
}

/// The canonical form of an accepted format is accepted too.
pub proof fn law_canonical_keeps_acceptance(f: FormatEtc)
    ensures
        query_result(Some(FormatEtc { target_device: None, ..f })) == query_result(Some(f)),
{
}

} // verus!
