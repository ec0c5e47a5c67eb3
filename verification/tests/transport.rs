use capturefs::attr::root_attr;
use capturefs::attr::MAX_NAME_LENGTH;
use capturefs::attr::ROOT_ID;

#[test]
fn root_identifier_is_the_one_of_fuse() {
    assert_eq!(ROOT_ID, fuser::FUSE_ROOT_ID);
    assert_eq!(root_attr().ino, fuser::FUSE_ROOT_ID);
}

#[test]
fn name_limit_is_the_one_of_the_platform() {
    assert_eq!(MAX_NAME_LENGTH as i64, libc::NAME_MAX as i64);
}
