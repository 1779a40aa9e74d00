use scmstore::attrs::FileAttributes;

#[test]
fn with_computable_adds_aux_to_content() {
    let content = FileAttributes::only_content();
    assert_eq!(
        content.with_computable(),
        FileAttributes { content: true, aux_data: true }
    );
    assert_eq!(FileAttributes::only_aux().with_computable(), FileAttributes::only_aux());
    assert_eq!(FileAttributes::empty().with_computable(), FileAttributes::empty());
}

#[test]
fn has_is_superset() {
    let both = FileAttributes { content: true, aux_data: true };
    assert!(both.has(FileAttributes::only_content()));
    assert!(both.has(FileAttributes::only_aux()));
    assert!(!FileAttributes::only_content().has(both));
    assert!(FileAttributes::only_content().has(FileAttributes::empty()));
}

#[test]
fn none_any_all() {
    let both = FileAttributes { content: true, aux_data: true };
    assert!(FileAttributes::empty().none());
    assert!(!FileAttributes::empty().any());
    assert!(!FileAttributes::empty().all());
    assert!(FileAttributes::only_aux().any());
    assert!(!FileAttributes::only_aux().all());
    assert!(both.all());
}

#[test]
fn operators_are_set_operators() {
    let c = FileAttributes::only_content();
    let a = FileAttributes::only_aux();
    let both = FileAttributes { content: true, aux_data: true };
    assert_eq!(c | a, both);
    assert_eq!(c & a, FileAttributes::empty());
    assert_eq!(both - c, a);
    assert_eq!(!c, a);
    assert_eq!(!both, FileAttributes::empty());
}
