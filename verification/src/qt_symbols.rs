//! The MSVC-decorated Qt symbols the `QPainter::drawText` hooks resolve, per ABI
//! profile. A namespaced Qt build also changes the type back-references inside each
//! name, so every profile lists its names in full; a name no profile knows is refused.
//! Every name carries its terminating NUL, as the loader expects it.
use vstd::prelude::*;
use crate::chars::str_eq;

verus! {

pub const DRAW_POINT_SIMPLE_SYMBOL: &'static str = "?drawText@QPainter@@QEAAXAEBVQPointF@@AEBVQString@@@Z\0";
pub const DRAW_POINT_SYMBOL: &'static str = "?drawText@QPainter@@QEAAXAEBVQPointF@@AEBVQString@@HH@Z\0";
pub const DRAW_RECT_SYMBOL: &'static str = "?drawText@QPainter@@QEAAXAEBVQRect@@HAEBVQString@@PEAV2@@Z\0";
pub const DRAW_RECT_OPTION_SYMBOL: &'static str = "?drawText@QPainter@@QEAAXAEBVQRectF@@AEBVQString@@AEBVQTextOption@@@Z\0";
pub const DRAW_RECT_F_SYMBOL: &'static str = "?drawText@QPainter@@QEAAXAEBVQRectF@@HAEBVQString@@PEAV2@@Z\0";
pub const DRAW_RECT_COORDS_SYMBOL: &'static str = "?drawText@QPainter@@QEAAXHHHHHAEBVQString@@PEAVQRect@@@Z\0";
pub const QSTRING_UTF16_SYMBOL: &'static str = "?utf16@QString@@QEBAPEBGXZ\0";
pub const QSTRING_DTOR_SYMBOL: &'static str = "??1QString@@QEAA@XZ\0";
pub const QSTRING5_CTOR_SYMBOL: &'static str = "??0QString@@QEAA@PEBVQChar@@H@Z\0";
pub const QSTRING5_SIZE_SYMBOL: &'static str = "?size@QString@@QEBAHXZ\0";
pub const QSTRING6_CTOR_SYMBOL: &'static str = "??0QString@@QEAA@PEBVQChar@@_J@Z\0";
pub const QSTRING6_SIZE_SYMBOL: &'static str = "?size@QString@@QEBA_JXZ\0";
pub const QAPPLICATION_ALL_WIDGETS_SYMBOL: &'static str = "?allWidgets@QApplication@@SA?AV?$QList@PEAVQWidget@@@@XZ\0";
pub const QWIDGET_FIND_SYMBOL: &'static str = "?find@QWidget@@SAPEAV1@_K@Z\0";
pub const QWIDGET_REPAINT_SYMBOL: &'static str = "?repaint@QWidget@@QEAAXXZ\0";
pub const QLIST_DATA_DISPOSE_SYMBOL: &'static str = "?dispose@QListData@@SAXPEAUData@1@@Z\0";
pub const QARRAY_DATA_DEALLOCATE_SYMBOL: &'static str = "?deallocate@QArrayData@@SAXPEAU1@_J1@Z\0";

pub const BASE_SYMBOL_COUNT: usize = 17;

/// The target architecture of the hooked process.
#[derive(Clone, Copy, Debug, PartialEq, Eq, Structural)]
pub enum Arch {
    X86,
    X64,
}

/// The C++ namespace Qt was built in.
#[derive(Clone, Copy, Debug, PartialEq, Eq, Structural)]
pub enum Namespace {
    Global,
    Qt,
    Isl0,
}

/// The `k`-th symbol, as the x64 build of Qt in the global namespace names it.
pub open spec fn base_symbol(k: int) -> &'static str {
    if k == 0 { DRAW_POINT_SIMPLE_SYMBOL }
    else if k == 1 { DRAW_POINT_SYMBOL }
    else if k == 2 { DRAW_RECT_SYMBOL }
    else if k == 3 { DRAW_RECT_OPTION_SYMBOL }
    else if k == 4 { DRAW_RECT_F_SYMBOL }
    else if k == 5 { DRAW_RECT_COORDS_SYMBOL }
    else if k == 6 { QSTRING_UTF16_SYMBOL }
    else if k == 7 { QSTRING_DTOR_SYMBOL }
    else if k == 8 { QSTRING5_CTOR_SYMBOL }
    else if k == 9 { QSTRING5_SIZE_SYMBOL }
    else if k == 10 { QSTRING6_CTOR_SYMBOL }
    else if k == 11 { QSTRING6_SIZE_SYMBOL }
    else if k == 12 { QAPPLICATION_ALL_WIDGETS_SYMBOL }
    else if k == 13 { QWIDGET_FIND_SYMBOL }
    else if k == 14 { QWIDGET_REPAINT_SYMBOL }
    else if k == 15 { QLIST_DATA_DISPOSE_SYMBOL }
    else { QARRAY_DATA_DEALLOCATE_SYMBOL }
}

fn base_symbol_at(k: usize) -> (r: &'static str)
    requires
        k < BASE_SYMBOL_COUNT,
    ensures
        r == base_symbol(k as int),
{
    if k == 0 { DRAW_POINT_SIMPLE_SYMBOL }
    else if k == 1 { DRAW_POINT_SYMBOL }
    else if k == 2 { DRAW_RECT_SYMBOL }
    else if k == 3 { DRAW_RECT_OPTION_SYMBOL }
    else if k == 4 { DRAW_RECT_F_SYMBOL }
    else if k == 5 { DRAW_RECT_COORDS_SYMBOL }
    else if k == 6 { QSTRING_UTF16_SYMBOL }
    else if k == 7 { QSTRING_DTOR_SYMBOL }
    else if k == 8 { QSTRING5_CTOR_SYMBOL }
    else if k == 9 { QSTRING5_SIZE_SYMBOL }
    else if k == 10 { QSTRING6_CTOR_SYMBOL }
    else if k == 11 { QSTRING6_SIZE_SYMBOL }
    else if k == 12 { QAPPLICATION_ALL_WIDGETS_SYMBOL }
    else if k == 13 { QWIDGET_FIND_SYMBOL }
    else if k == 14 { QWIDGET_REPAINT_SYMBOL }
    else if k == 15 { QLIST_DATA_DISPOSE_SYMBOL }
    else { QARRAY_DATA_DEALLOCATE_SYMBOL }
}

/// The x86 names of Qt 5 in the global namespace.
pub open spec fn x86_symbol(k: int) -> Option<&'static str> {
    if k == 0 { Some("?drawText@QPainter@@QAEXABVQPointF@@ABVQString@@@Z\0") }
    else if k == 1 { Some("?drawText@QPainter@@QAEXABVQPointF@@ABVQString@@HH@Z\0") }
    else if k == 2 { Some("?drawText@QPainter@@QAEXABVQRect@@HABVQString@@PAV2@@Z\0") }
    else if k == 3 { Some("?drawText@QPainter@@QAEXABVQRectF@@ABVQString@@ABVQTextOption@@@Z\0") }
    else if k == 4 { Some("?drawText@QPainter@@QAEXABVQRectF@@HABVQString@@PAV2@@Z\0") }
    else if k == 5 { Some("?drawText@QPainter@@QAEXHHHHHABVQString@@PAVQRect@@@Z\0") }
    else if k == 6 { Some("?utf16@QString@@QBEPBGXZ\0") }
    else if k == 7 { Some("??1QString@@QAE@XZ\0") }
    else if k == 8 { Some("??0QString@@QAE@PBVQChar@@H@Z\0") }
    else if k == 9 { Some("?size@QString@@QBEHXZ\0") }
    else if k == 12 { Some("?allWidgets@QApplication@@SA?AV?$QList@PAVQWidget@@@@XZ\0") }
    else if k == 13 { Some("?find@QWidget@@SAPAV1@I@Z\0") }
    else if k == 14 { Some("?repaint@QWidget@@QAEXXZ\0") }
    else if k == 15 { Some("?dispose@QListData@@SAXPAUData@1@@Z\0") }
    else { None }
}

/// The x64 names of Qt 6 built in namespace `QT`.
pub open spec fn qt_namespace_symbol(k: int) -> Option<&'static str> {
    if k == 0 { Some("?drawText@QPainter@QT@@QEAAXAEBVQPointF@2@AEBVQString@2@@Z\0") }
    else if k == 1 { Some("?drawText@QPainter@QT@@QEAAXAEBVQPointF@2@AEBVQString@2@HH@Z\0") }
    else if k == 2 { Some("?drawText@QPainter@QT@@QEAAXAEBVQRect@2@HAEBVQString@2@PEAV32@@Z\0") }
    else if k == 3 { Some("?drawText@QPainter@QT@@QEAAXAEBVQRectF@2@AEBVQString@2@AEBVQTextOption@2@@Z\0") }
    else if k == 4 { Some("?drawText@QPainter@QT@@QEAAXAEBVQRectF@2@HAEBVQString@2@PEAV32@@Z\0") }
    else if k == 5 { Some("?drawText@QPainter@QT@@QEAAXHHHHHAEBVQString@2@PEAVQRect@2@@Z\0") }
    else if k == 6 { Some("?utf16@QString@QT@@QEBAPEBGXZ\0") }
    else if k == 7 { Some("??1QString@QT@@QEAA@XZ\0") }
    else if k == 10 { Some("??0QString@QT@@QEAA@PEBVQChar@1@_J@Z\0") }
    else if k == 11 { Some("?size@QString@QT@@QEBA_JXZ\0") }
    else if k == 12 { Some("?allWidgets@QApplication@QT@@SA?AV?$QList@PEAVQWidget@QT@@@2@XZ\0") }
    else if k == 13 { Some("?find@QWidget@QT@@SAPEAV12@_K@Z\0") }
    else if k == 14 { Some("?repaint@QWidget@QT@@QEAAXXZ\0") }
    else if k == 16 { Some("?deallocate@QArrayData@QT@@SAXPEAU12@_J1@Z\0") }
    else { None }
}

/// The x64 names of Qt 6 built in namespace `isl0`.
pub open spec fn isl0_namespace_symbol(k: int) -> Option<&'static str> {
    if k == 0 { Some("?drawText@QPainter@isl0@@QEAAXAEBVQPointF@2@AEBVQString@2@@Z\0") }
    else if k == 1 { Some("?drawText@QPainter@isl0@@QEAAXAEBVQPointF@2@AEBVQString@2@HH@Z\0") }
    else if k == 2 { Some("?drawText@QPainter@isl0@@QEAAXAEBVQRect@2@HAEBVQString@2@PEAV32@@Z\0") }
    else if k == 3 { Some("?drawText@QPainter@isl0@@QEAAXAEBVQRectF@2@AEBVQString@2@AEBVQTextOption@2@@Z\0") }
    else if k == 4 { Some("?drawText@QPainter@isl0@@QEAAXAEBVQRectF@2@HAEBVQString@2@PEAV32@@Z\0") }
    else if k == 5 { Some("?drawText@QPainter@isl0@@QEAAXHHHHHAEBVQString@2@PEAVQRect@2@@Z\0") }
    else if k == 6 { Some("?utf16@QString@isl0@@QEBAPEBGXZ\0") }
    else if k == 7 { Some("??1QString@isl0@@QEAA@XZ\0") }
    else if k == 10 { Some("??0QString@isl0@@QEAA@PEBVQChar@1@_J@Z\0") }
    else if k == 11 { Some("?size@QString@isl0@@QEBA_JXZ\0") }
    else if k == 12 { Some("?allWidgets@QApplication@isl0@@SA?AV?$QList@PEAVQWidget@isl0@@@2@XZ\0") }
    else if k == 13 { Some("?find@QWidget@isl0@@SAPEAV12@_K@Z\0") }
    else if k == 14 { Some("?repaint@QWidget@isl0@@QEAAXXZ\0") }
    else if k == 16 { Some("?deallocate@QArrayData@isl0@@SAXPEAU12@_J1@Z\0") }
    else { None }
}

/// The x86 names of Qt 5 in the global namespace.
fn x86_symbol_at(k: usize) -> (r: Option<&'static str>)
    ensures
        r == x86_symbol(k as int),
{
    if k == 0 { Some("?drawText@QPainter@@QAEXABVQPointF@@ABVQString@@@Z\0") }
    else if k == 1 { Some("?drawText@QPainter@@QAEXABVQPointF@@ABVQString@@HH@Z\0") }
    else if k == 2 { Some("?drawText@QPainter@@QAEXABVQRect@@HABVQString@@PAV2@@Z\0") }
    else if k == 3 { Some("?drawText@QPainter@@QAEXABVQRectF@@ABVQString@@ABVQTextOption@@@Z\0") }
    else if k == 4 { Some("?drawText@QPainter@@QAEXABVQRectF@@HABVQString@@PAV2@@Z\0") }
    else if k == 5 { Some("?drawText@QPainter@@QAEXHHHHHABVQString@@PAVQRect@@@Z\0") }
    else if k == 6 { Some("?utf16@QString@@QBEPBGXZ\0") }
    else if k == 7 { Some("??1QString@@QAE@XZ\0") }
    else if k == 8 { Some("??0QString@@QAE@PBVQChar@@H@Z\0") }
    else if k == 9 { Some("?size@QString@@QBEHXZ\0") }
    else if k == 12 { Some("?allWidgets@QApplication@@SA?AV?$QList@PAVQWidget@@@@XZ\0") }
    else if k == 13 { Some("?find@QWidget@@SAPAV1@I@Z\0") }
    else if k == 14 { Some("?repaint@QWidget@@QAEXXZ\0") }
    else if k == 15 { Some("?dispose@QListData@@SAXPAUData@1@@Z\0") }
    else { None }
}

/// The x64 names of Qt 6 built in namespace `QT`.
fn qt_namespace_symbol_at(k: usize) -> (r: Option<&'static str>)
    ensures
        r == qt_namespace_symbol(k as int),
{
    if k == 0 { Some("?drawText@QPainter@QT@@QEAAXAEBVQPointF@2@AEBVQString@2@@Z\0") }
    else if k == 1 { Some("?drawText@QPainter@QT@@QEAAXAEBVQPointF@2@AEBVQString@2@HH@Z\0") }
    else if k == 2 { Some("?drawText@QPainter@QT@@QEAAXAEBVQRect@2@HAEBVQString@2@PEAV32@@Z\0") }
    else if k == 3 { Some("?drawText@QPainter@QT@@QEAAXAEBVQRectF@2@AEBVQString@2@AEBVQTextOption@2@@Z\0") }
    else if k == 4 { Some("?drawText@QPainter@QT@@QEAAXAEBVQRectF@2@HAEBVQString@2@PEAV32@@Z\0") }
    else if k == 5 { Some("?drawText@QPainter@QT@@QEAAXHHHHHAEBVQString@2@PEAVQRect@2@@Z\0") }
    else if k == 6 { Some("?utf16@QString@QT@@QEBAPEBGXZ\0") }
    else if k == 7 { Some("??1QString@QT@@QEAA@XZ\0") }
    else if k == 10 { Some("??0QString@QT@@QEAA@PEBVQChar@1@_J@Z\0") }
    else if k == 11 { Some("?size@QString@QT@@QEBA_JXZ\0") }
    else if k == 12 { Some("?allWidgets@QApplication@QT@@SA?AV?$QList@PEAVQWidget@QT@@@2@XZ\0") }
    else if k == 13 { Some("?find@QWidget@QT@@SAPEAV12@_K@Z\0") }
    else if k == 14 { Some("?repaint@QWidget@QT@@QEAAXXZ\0") }
    else if k == 16 { Some("?deallocate@QArrayData@QT@@SAXPEAU12@_J1@Z\0") }
    else { None }
}

/// The x64 names of Qt 6 built in namespace `isl0`.
fn isl0_namespace_symbol_at(k: usize) -> (r: Option<&'static str>)
    ensures
        r == isl0_namespace_symbol(k as int),
{
    if k == 0 { Some("?drawText@QPainter@isl0@@QEAAXAEBVQPointF@2@AEBVQString@2@@Z\0") }
    else if k == 1 { Some("?drawText@QPainter@isl0@@QEAAXAEBVQPointF@2@AEBVQString@2@HH@Z\0") }
    else if k == 2 { Some("?drawText@QPainter@isl0@@QEAAXAEBVQRect@2@HAEBVQString@2@PEAV32@@Z\0") }
    else if k == 3 { Some("?drawText@QPainter@isl0@@QEAAXAEBVQRectF@2@AEBVQString@2@AEBVQTextOption@2@@Z\0") }
    else if k == 4 { Some("?drawText@QPainter@isl0@@QEAAXAEBVQRectF@2@HAEBVQString@2@PEAV32@@Z\0") }
    else if k == 5 { Some("?drawText@QPainter@isl0@@QEAAXHHHHHAEBVQString@2@PEAVQRect@2@@Z\0") }
    else if k == 6 { Some("?utf16@QString@isl0@@QEBAPEBGXZ\0") }
    else if k == 7 { Some("??1QString@isl0@@QEAA@XZ\0") }
    else if k == 10 { Some("??0QString@isl0@@QEAA@PEBVQChar@1@_J@Z\0") }
    else if k == 11 { Some("?size@QString@isl0@@QEBA_JXZ\0") }
    else if k == 12 { Some("?allWidgets@QApplication@isl0@@SA?AV?$QList@PEAVQWidget@isl0@@@2@XZ\0") }
    else if k == 13 { Some("?find@QWidget@isl0@@SAPEAV12@_K@Z\0") }
    else if k == 14 { Some("?repaint@QWidget@isl0@@QEAAXXZ\0") }
    else if k == 16 { Some("?deallocate@QArrayData@isl0@@SAXPEAU12@_J1@Z\0") }
    else { None }
}
/// The first base symbol at or after `k` whose name is `s`, or -1.
pub open spec fn symbol_index_from(s: Seq<char>, k: int) -> int
    decreases BASE_SYMBOL_COUNT - k,
{
    if k < 0 || k >= BASE_SYMBOL_COUNT {
        -1
    } else if base_symbol(k)@ == s {
        k
    } else {
        symbol_index_from(s, k + 1)
    }
}

pub open spec fn symbol_index(s: Seq<char>) -> int {
    symbol_index_from(s, 0)
}

/// The `k`-th symbol in a namespaced profile (the same on every architecture).
pub open spec fn profile_table(ns: Namespace, arch: Arch, k: int) -> Option<&'static str> {
    match ns {
        Namespace::Global => if arch == Arch::X86 { x86_symbol(k) } else { Some(base_symbol(k)) },
        Namespace::Qt => qt_namespace_symbol(k),
        Namespace::Isl0 => isl0_namespace_symbol(k),
    }
}

/// The name under which a profile exports `symbol`. The x64 global profile is the
/// base naming itself and hands any name back as it is.
pub open spec fn decorated(ns: Namespace, arch: Arch, symbol: &'static str) -> Result<&'static str, ()> {
    if ns == Namespace::Global && arch == Arch::X64 {
        Ok(symbol)
    } else {
        let k = symbol_index(symbol@);
        if k < 0 {
            Err(())
        } else {
            match profile_table(ns, arch, k) {
                Some(d) => Ok(d),
                None => Err(()),
            }
        }
    }
}

/// The name a profile probes to recognise itself: its `QString::utf16`.
pub open spec fn probe_name(ns: Namespace, arch: Arch) -> Result<&'static str, ()> {
    decorated(ns, arch, QSTRING_UTF16_SYMBOL)
}

/// `present` answered `answer` for the probe name of a profile.
pub open spec fn probe_seen<F: Fn(&'static str) -> bool>(present: &F, ns: Namespace, arch: Arch, answer: bool) -> bool {
    probe_name(ns, arch) is Ok && present.ensures((probe_name(ns, arch)->Ok_0,), answer)
}

/// `present` did not find the probe name of a profile, or the profile has none.
pub open spec fn probe_absent<F: Fn(&'static str) -> bool>(present: &F, ns: Namespace, arch: Arch) -> bool {
    probe_name(ns, arch) is Ok ==> present.ensures((probe_name(ns, arch)->Ok_0,), false)
}

proof fn lemma_symbol_index_bounds(s: Seq<char>, k: int)
    ensures
        symbol_index_from(s, k) == -1 || (k <= symbol_index_from(s, k) < BASE_SYMBOL_COUNT
            && base_symbol(symbol_index_from(s, k))@ == s),
    decreases BASE_SYMBOL_COUNT - k,
{
    if !(k < 0 || k >= BASE_SYMBOL_COUNT) && base_symbol(k)@ != s {
        lemma_symbol_index_bounds(s, k + 1);
    }
}

impl Namespace {
    #[verifier::loop_isolation(false)]
    pub fn symbol(self, arch: Arch, symbol: &'static str) -> (r: Result<&'static str, ()>)
        ensures
            r == decorated(self, arch, symbol),
    {
        if self == Namespace::Global && arch == Arch::X64 {
            return Ok(symbol);
        }
        let mut k: usize = 0;
        while k < BASE_SYMBOL_COUNT
            invariant
                k <= BASE_SYMBOL_COUNT,
                symbol_index(symbol@) == symbol_index_from(symbol@, k as int),
            decreases BASE_SYMBOL_COUNT - k,
        {
            if str_eq(symbol, base_symbol_at(k)) {
                let found = match self {
                    Namespace::Global => if arch == Arch::X86 { x86_symbol_at(k) } else { Some(base_symbol_at(k)) },
                    Namespace::Qt => qt_namespace_symbol_at(k),
                    Namespace::Isl0 => isl0_namespace_symbol_at(k),
                };
                return match found {
                    Some(d) => Ok(d),
                    None => Err(()),
                };
            }
            k += 1;
        }
        Err(())
    }

    /// The profile of the loaded Qt core, recognised by which `QString::utf16` it exports:
    /// the global name first; the namespaced Qt 6 builds only on x64. `present` tells
    /// whether the core exports a name.
    pub fn detect<F: Fn(&'static str) -> bool>(major: u8, arch: Arch, present: F) -> (r: Result<Namespace, ()>)
        requires
            forall|s: &'static str| present.requires((s,)),
        ensures
            r == Ok::<Namespace, ()>(Namespace::Global) ==> probe_seen(&present, Namespace::Global, arch, true),
            r == Ok::<Namespace, ()>(Namespace::Qt) ==> {
                &&& arch == Arch::X64 && major == 6
                &&& probe_seen(&present, Namespace::Global, arch, false)
                &&& probe_seen(&present, Namespace::Qt, arch, true)
            },
            r == Ok::<Namespace, ()>(Namespace::Isl0) ==> {
                &&& arch == Arch::X64 && major == 6
                &&& probe_seen(&present, Namespace::Global, arch, false)
                &&& probe_seen(&present, Namespace::Qt, arch, false)
                &&& probe_seen(&present, Namespace::Isl0, arch, true)
            },
            r is Err ==> {
                &&& probe_absent(&present, Namespace::Global, arch)
                &&& arch == Arch::X64 && major == 6 ==> probe_absent(&present, Namespace::Qt, arch)
                    && probe_absent(&present, Namespace::Isl0, arch)
            },
    {
        let g = match Namespace::Global.symbol(arch, QSTRING_UTF16_SYMBOL) {
            Ok(g) => g,
            Err(()) => return Err(()),
        };
        if present(g) {
            return Ok(Namespace::Global);
        }
        if arch == Arch::X64 && major == 6 {
            let q = match Namespace::Qt.symbol(arch, QSTRING_UTF16_SYMBOL) {
                Ok(q) => q,
                Err(()) => return Err(()),
            };
            if present(q) {
                return Ok(Namespace::Qt);
            }
            let i = match Namespace::Isl0.symbol(arch, QSTRING_UTF16_SYMBOL) {
                Ok(i) => i,
                Err(()) => return Err(()),
            };
            if present(i) {
                return Ok(Namespace::Isl0);
            }
        }
        Err(())
    }
}

} // verus!
