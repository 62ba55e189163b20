use little_tokio::interest::Interest;

#[test]
fn readable_alone_reads_not_writes() {
    let i = Interest::readable();
    assert!(i.is_readable());
    assert!(!i.is_writable());
}

#[test]
fn writable_alone_writes_not_reads() {
    let i = Interest::writable();
    assert!(!i.is_readable());
    assert!(i.is_writable());
}

#[test]
fn union_has_both_directions() {
    let both = Interest::readable().add(Interest::writable());
    assert!(both.is_readable());
    assert!(both.is_writable());
}

#[test]
fn union_is_commutative_on_queries() {
    let a = Interest::readable().add(Interest::writable());
    let b = Interest::writable().add(Interest::readable());
    assert_eq!(a.is_readable(), b.is_readable());
    assert_eq!(a.is_writable(), b.is_writable());
    assert_eq!(a, b);
}

#[test]
fn union_is_idempotent() {
    let r = Interest::readable();
    assert_eq!(r.add(r), r);
    let w = Interest::writable();
    assert_eq!(w.add(w), w);
}

#[test]
fn describe_names_each_direction() {
    assert_eq!(Interest::readable().describe(), "READABLE");
    assert_eq!(Interest::writable().describe(), "WRITABLE");
    assert_eq!(Interest::readable().add(Interest::writable()).describe(), "READABLE | WRITABLE");
}
