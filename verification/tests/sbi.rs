use wasm_vm_core::sbi::{dispatch, EID_BASE, EID_DBCN, EID_HSM, SBI_ERR_NOT_SUPPORTED};

#[test]
fn unknown_eid_is_not_supported() {
    for eid in [0u64, 0xDEAD_BEEF, u64::MAX, EID_BASE, EID_DBCN, EID_HSM] {
        let ret = dispatch(eid, 7, &[1, 2, 3, 4, 5, 6]);
        assert_eq!(ret.error, SBI_ERR_NOT_SUPPORTED, "eid {eid:#x}");
        assert_eq!(ret.value, 0);
    }
}
