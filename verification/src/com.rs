//! The COM result codes and clipboard format description used by drag and drop.
use vstd::prelude::*;

verus! {

/// `S_OK`.
pub const S_OK: i32 = 0;

/// `S_FALSE`: success, with less done than asked.
pub const S_FALSE: i32 = 1;

/// `E_UNEXPECTED` (0x8000FFFF).
pub const E_UNEXPECTED: i32 = -2147418113;

/// `E_NOTIMPL` (0x80004001).
pub const E_NOTIMPL: i32 = -2147467263;

/// `DV_E_FORMATETC` (0x80040064).
pub const DV_E_FORMATETC: i32 = -2147221404;

/// `DV_E_DVASPECT` (0x8004006B).
pub const DV_E_DVASPECT: i32 = -2147221397;

/// `DV_E_LINDEX` (0x80040068).
pub const DV_E_LINDEX: i32 = -2147221400;

/// `DV_E_TYMED` (0x80040069).
pub const DV_E_TYMED: i32 = -2147221399;

/// `OLE_E_ADVISENOTSUPPORTED` (0x80040003).
pub const OLE_E_ADVISENOTSUPPORTED: i32 = -2147221501;

/// `DATA_S_SAMEFORMATETC` (0x00040130).
pub const DATA_S_SAMEFORMATETC: i32 = 262448;

/// `CF_HDROP`: a list of files.
pub const CF_HDROP: u16 = 15;

/// `DVASPECT_CONTENT`.
pub const DVASPECT_CONTENT: u32 = 1;

/// `TYMED_HGLOBAL`: the data travels in a global memory handle.
pub const TYMED_HGLOBAL: u32 = 1;

/// `DATADIR_GET`.
pub const DATADIR_GET: u32 = 1;

/// A `FORMATETC`: which format of the data, for which device, which aspect
/// and which medium. `target_device` is the device description's address,
/// `None` where the pointer is null.
#[derive(Clone, Copy, Debug, PartialEq, Eq, Structural)]
pub struct FormatEtc {
    pub cf_format: u16,
    pub target_device: Option<usize>,
    pub aspect: u32,
    pub lindex: i32,
    pub tymed: u32,
}

/// The one format that a dragged item offers: a file list in global memory.
pub open spec fn hdrop_format() -> FormatEtc {
    FormatEtc {
        cf_format: CF_HDROP,
        target_device: None,
        aspect: DVASPECT_CONTENT,
        lindex: -1i32,
        tymed: TYMED_HGLOBAL,
    }
}

pub fn hdrop_format_etc() -> (f: FormatEtc)
    ensures
        f == hdrop_format(),
{
    FormatEtc {
        cf_format: CF_HDROP,
        target_device: None,
        aspect: DVASPECT_CONTENT,
        lindex: -1,
        tymed: TYMED_HGLOBAL,
    }
}

} // verus!
