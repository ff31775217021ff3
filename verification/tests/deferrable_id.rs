use maelstrom_rs::Id;

#[test]
fn coalesce_substitutes_only_when_deferred() {
    let deferred: Id<u64> = Id::Defer;
    assert!(matches!(deferred.coalesce(Id::Known(Some(7))), Id::Known(Some(7))));
    assert!(matches!(deferred.coalesce(Id::Known(None)), Id::Known(None)));

    let present: Id<u64> = Id::Known(Some(3));
    assert!(matches!(present.coalesce(Id::Known(Some(7))), Id::Known(Some(3))));

    let absent: Id<u64> = Id::Known(None);
    assert!(matches!(absent.coalesce(Id::Known(Some(7))), Id::Known(None)));
}

#[test]
fn else_coalesce_calls_only_when_deferred() {
    let deferred: Id<u64> = Id::Defer;
    assert!(matches!(deferred.else_coalesce(|| Id::Known(Some(9))), Id::Known(Some(9))));

    let present: Id<u64> = Id::Known(Some(4));
    assert!(matches!(present.else_coalesce(|| Id::Known(Some(9))), Id::Known(Some(4))));

    let absent: Id<u64> = Id::Known(None);
    assert!(matches!(absent.else_coalesce(|| Id::Known(Some(9))), Id::Known(None)));
}

#[test]
fn option_conversions_read_defer_as_no_value_yet() {
    assert_eq!(Id::<u64>::Known(Some(5)).into_option(), Some(5));
    assert_eq!(Id::<u64>::Known(None).into_option(), None);
    assert_eq!(Id::<u64>::Defer.into_option(), None);
    assert!(matches!(Id::<u64>::from_option(Some(2)), Id::Known(Some(2))));
    assert!(matches!(Id::<u64>::from_option(None), Id::Known(None)));
}
