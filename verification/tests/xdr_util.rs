use soroban_storage::xdr_util::vecm;
use stellar_xdr::VecM;

#[test]
fn vecm_rejects_over_bounds() {
    assert!(vecm::<u32, 2>(vec![1, 2, 3]).is_err());
}

#[test]
fn vecm_accepts_within_bounds() {
    let v: VecM<u32, 3> = vecm(vec![1, 2, 3]).unwrap();
    assert_eq!(v.len(), 3);
}

#[test]
fn vecm_error_is_readable() {
    assert_eq!(
        vecm::<u8, 0>(vec![1]).unwrap_err(),
        "too many elements for XDR vector: xdr value max length exceeded"
    );
    assert!(vecm::<u8, 0>(vec![]).is_ok());
}
