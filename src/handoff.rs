//! The fixed names of the handoff: where the kernel image lies beside the
//! loader.

use vstd::prelude::*;
use crate::command_line::{encode_ucs2, ucs2_units};
use crate::device_path::{derive_sibling_path, path_view, sibling_path, PathNode};

verus! {

/// Path of the kernel image on the boot volume.
pub const KERNEL_PATH: &'static str = "\\zebrafish-kernel";

/// The kernel's file name as UCS-2 code units, without a terminator.
pub fn kernel_file_name() -> (r: Vec<u16>)
    ensures
        r@ == ucs2_units(KERNEL_PATH@),
        r@.len() == 17,
{
    proof {
        reveal_strlit("\\zebrafish-kernel");
    }
    let r = encode_ucs2(KERNEL_PATH);
    assert(r is Some);
    r.unwrap()
}

/// The device path of the kernel image: the loader's own path `own_path`, with
/// its file part replaced by the kernel's file name.
pub fn kernel_device_path(own_path: &Vec<PathNode>) -> (r: Vec<PathNode>)
    ensures
        path_view(r@) == sibling_path(path_view(own_path@), ucs2_units(KERNEL_PATH@)),
{
    let name = kernel_file_name();
    derive_sibling_path(own_path, &name)
}

} // verus!
