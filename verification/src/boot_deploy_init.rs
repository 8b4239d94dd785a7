//! The reviewed postmarketOS-style initramfs runtime resources and the
//! full-disk-encryption unlock patch of `init_functions_2nd.sh`.

use crate::text::{chars_of, count_matches, count_matches_exec, owned, replace_all, replace_str, str_eq};
use vstd::prelude::*;
use vstd::string::*;

verus! {

/// The reviewed initramfs package release.
pub const REVIEWED_INITRAMFS_VERSION: &'static str = "3.10.0-r0";

/// The stock unlock call inside `unlock_root_partition`.
pub const STOCK_UNLOCK_CALL: &'static str = "\t\t\tfde-unlock \"$PMOS_ROOT\" \"$tried\"\n";

/// The unlock call routed through the Bootart FDE wrapper.
pub const BOOTART_UNLOCK_CALL: &'static str = "\t\t\t/usr/libexec/bootart/mkinitfs-boot-deploy-fde \"$PMOS_ROOT\" \"$tried\"\n";

pub const RUNTIME_HOOK: &'static str = "#!/bin/sh\n/usr/bin/bootart daemon --initramfs || true\n";

pub const FDE_WRAPPER: &'static str = "#!/bin/sh\nexec /usr/bin/bootart fde-unlock --fallback /usr/libexec/bootart/fde-unlock-stock -- \"$@\"\n";

pub const STOCK_FDE_UNLOCK: &'static str = "#!/bin/sh\nexec /usr/bin/fde-unlock \"$@\"\n";

pub const NATIVE_UNL0KR: &'static str = "#!/bin/sh\nexec /usr/bin/bootart askpass --unl0kr \"$@\"\n";

pub const START_HOOK: &'static str = "#!/bin/sh\n/usr/libexec/bootart/mkinitfs-boot-deploy-runtime start\n";

pub const CLEANUP_HOOK: &'static str = "#!/bin/sh\n/usr/libexec/bootart/mkinitfs-boot-deploy-runtime handoff\n";

/// The sources the patch accepts: the reviewed release with one stock or one
/// already-routed unlock call, never both.
pub open spec fn functions_patchable(s: Seq<char>, version: Seq<char>) -> bool {
    &&& version == REVIEWED_INITRAMFS_VERSION@
    &&& {
        ||| count_matches(s, STOCK_UNLOCK_CALL@) == 1 && count_matches(s, BOOTART_UNLOCK_CALL@)
            == 0
        ||| count_matches(s, STOCK_UNLOCK_CALL@) == 0 && count_matches(s, BOOTART_UNLOCK_CALL@)
            == 1
    }
}

/// The patched source: the stock call routed through the wrapper.
pub open spec fn patched_functions(s: Seq<char>) -> Seq<char> {
    if count_matches(s, STOCK_UNLOCK_CALL@) == 1 {
        replace_all(s, STOCK_UNLOCK_CALL@, BOOTART_UNLOCK_CALL@)
    } else {
        s
    }
}

/// Routes the stock unlock call through the Bootart FDE wrapper.  An already
/// routed source is returned unchanged.
pub fn patch_init_functions_2nd(source: &str, version: &str) -> (r: Result<String, &'static str>)
    ensures
        r is Ok <==> functions_patchable(source@, version@),
        r matches Ok(p) ==> p@ == patched_functions(source@),
{
    proof {
        reveal_strlit("\t\t\tfde-unlock \"$PMOS_ROOT\" \"$tried\"\n");
        reveal_strlit(
            "\t\t\t/usr/libexec/bootart/mkinitfs-boot-deploy-fde \"$PMOS_ROOT\" \"$tried\"\n",
        );
    }
    if !str_eq(version, REVIEWED_INITRAMFS_VERSION) {
        return Err("initramfs release differs from the reviewed contract");
    }
    let s = chars_of(source);
    let stock = chars_of(STOCK_UNLOCK_CALL);
    let routed = chars_of(BOOTART_UNLOCK_CALL);
    let n_stock = count_matches_exec(s.as_slice(), stock.as_slice());
    let n_routed = count_matches_exec(s.as_slice(), routed.as_slice());
    if n_stock == 1 && n_routed == 0 {
        Ok(replace_str(source, STOCK_UNLOCK_CALL, BOOTART_UNLOCK_CALL))
    } else if n_stock == 0 && n_routed == 1 {
        Ok(owned(source))
    } else {
        Err("init_functions_2nd.sh is outside the reviewed unlock contract")
    }
}

} // verus!
