use whale_land::shared_memory::{
    range_to_offset_and_length, Metadata, OpenOptions, RangeBound, ShmOpenFlags,
};

#[test]
fn default_options_open_read_only() {
    let o = OpenOptions::default();
    assert_eq!(
        o.open_flags(),
        ShmOpenFlags { read_write: false, create: false, exclusive: false, truncate: false }
    );
    assert_eq!(o.permission_bits(), 0o666);
}

#[test]
fn create_new_overrides_create_and_truncate() {
    let mut o = OpenOptions::new();
    o.write(true).create(false).truncate(true).create_new(true).mode(0o600);
    assert_eq!(
        o.open_flags(),
        ShmOpenFlags { read_write: true, create: true, exclusive: true, truncate: false }
    );
    assert_eq!(o.permission_bits(), 0o600);
    let mut p = OpenOptions::new();
    p.create(true).truncate(true);
    assert_eq!(
        p.open_flags(),
        ShmOpenFlags { read_write: false, create: true, exclusive: false, truncate: true }
    );
}

#[test]
fn metadata_keeps_permission_bits() {
    let m = Metadata::from_status(4096, 1000, 100, 0o100644);
    assert_eq!(m, Metadata { length: 4096, owner: 1000, group: 100, mode: 0o644 });
    assert_eq!(Metadata::from_status(0, 0, 0, 0o107777).mode, 0o7777);
}

#[test]
fn range_offsets_and_lengths() {
    assert_eq!(range_to_offset_and_length(RangeBound::Included(4), RangeBound::Excluded(10), None), Some((4, 6)));
    assert_eq!(range_to_offset_and_length(RangeBound::Excluded(4), RangeBound::Included(10), None), Some((5, 6)));
    assert_eq!(range_to_offset_and_length(RangeBound::Unbounded, RangeBound::Unbounded, Some(100)), Some((0, 100)));
    assert_eq!(range_to_offset_and_length(RangeBound::Included(30), RangeBound::Unbounded, Some(100)), Some((30, 70)));
    assert_eq!(range_to_offset_and_length(RangeBound::Included(10), RangeBound::Excluded(4), None), None);
}
