use nixwrap::nix::{
    check_err, err_msg, NixContext, NixError, NixInitGuard, NixState, NixStore, NixStoreType,
    NixValue, ValueType, NIX_ERR, NIX_OK,
};

#[test]
fn open_every_named_store_backend() {
    let backends = vec![
        NixStoreType::Dummy,
        NixStoreType::Auto,
        NixStoreType::Path(String::from("/tmp/test-store")),
        NixStoreType::Daemon,
        NixStoreType::Local,
    ];
    for backend in backends {
        let mut ctx = NixContext::new().unwrap();
        let _guard = NixInitGuard::new(&mut ctx).unwrap();
        let store = NixStore::new(&mut ctx, backend).unwrap();
        assert_eq!(ctx.live_handles(), 1);
        store.release(&mut ctx);
        assert_eq!(ctx.live_handles(), 0);
        ctx.release();
    }
}

#[test]
fn open_store_with_bad_scheme() {
    let mut ctx = NixContext::new().unwrap();
    let _guard = NixInitGuard::new(&mut ctx).unwrap();
    match NixStore::new(&mut ctx, NixStoreType::Path(String::from("not-a-real-scheme://"))) {
        Err(NixError::HandleCreationFailed { message, .. }) => {
            assert!(message.contains("not-a-real-scheme://"));
        }
        other => panic!("expected a handle creation failure, got {:?}", other),
    }
    // The diagnostic is retrievable through the error channel afterwards.
    assert!(err_msg(&ctx).contains("not-a-real-scheme://"));
    // Teardown of the constructed subset is just the context itself.
    ctx.release();
}

#[test]
fn error_channel_classifies_codes() {
    let ctx = NixContext::new().unwrap();
    assert!(check_err(&ctx, NIX_OK).is_ok());
    assert!(check_err(&ctx, NIX_ERR).is_err());
    assert_eq!(check_err(&ctx, NIX_ERR).unwrap_err(), "unknown error");
    ctx.release();
}

#[test]
fn initialization_is_visible() {
    let mut ctx = NixContext::new().unwrap();
    assert!(!ctx.is_initialized());
    let _guard = NixInitGuard::new(&mut ctx).unwrap();
    assert!(ctx.is_initialized());
    ctx.release();
}

#[test]
fn unassigned_value_still_releases() {
    let mut ctx = NixContext::new().unwrap();
    let guard = NixInitGuard::new(&mut ctx).unwrap();
    let mut store = NixStore::new(&mut ctx, NixStoreType::Auto).unwrap();
    let mut state = NixState::new(&mut ctx, &mut store, guard).unwrap();
    let value = NixValue::new(&mut ctx, &mut state).unwrap();
    assert_eq!(ctx.live_handles(), 3);
    // Dropped without ever being assigned: the reference still comes back.
    value.release(&mut ctx);
    assert_eq!(ctx.live_handles(), 2);
    state.release(&mut ctx);
    store.release(&mut ctx);
    assert_eq!(ctx.live_handles(), 0);
    ctx.release();
}

#[test]
fn failed_binding_hands_the_slot_back() {
    let mut ctx = NixContext::new().unwrap();
    let guard = NixInitGuard::new(&mut ctx).unwrap();
    let mut store = NixStore::new(&mut ctx, NixStoreType::Auto).unwrap();
    let mut state = NixState::new(&mut ctx, &mut store, guard).unwrap();
    let value = NixValue::new(&mut ctx, &mut state).unwrap();
    let (value, err) = match value.assign_from_expr(&mut ctx, "1 +", &mut state, None) {
        Err(pair) => pair,
        Ok(_) => panic!("expected a binding failure"),
    };
    assert!(matches!(err, NixError::ExprEvalFailed { .. }));
    // Teardown in reverse construction order, on the error path too.
    value.release(&mut ctx);
    state.release(&mut ctx);
    store.release(&mut ctx);
    assert_eq!(ctx.live_handles(), 0);
    ctx.release();
}

#[test]
fn value_type_tags() {
    let mut ctx = NixContext::new().unwrap();
    let guard = NixInitGuard::new(&mut ctx).unwrap();
    let mut store = NixStore::new(&mut ctx, NixStoreType::Auto).unwrap();
    let mut state = NixState::new(&mut ctx, &mut store, guard).unwrap();

    let value = NixValue::new(&mut ctx, &mut state).unwrap();
    let value = value
        .assign_from_expr(&mut ctx, "\"hi\"", &mut state, None)
        .unwrap();
    assert_eq!(value.value_type(), ValueType::Str);
    value.release(&mut ctx);

    let value = NixValue::new(&mut ctx, &mut state).unwrap();
    let mut value = value
        .assign_from_expr(&mut ctx, "1 + 1", &mut state, None)
        .unwrap();
    // A chain stays a thunk until it is forced.
    assert_eq!(value.value_type(), ValueType::Thunk);
    value.force(&mut ctx, &mut state).unwrap();
    assert_eq!(value.value_type(), ValueType::Int);
    value.release(&mut ctx);

    let value = NixValue::new(&mut ctx, &mut state).unwrap();
    let value = value
        .assign_from_expr(&mut ctx, "true", &mut state, None)
        .unwrap();
    assert_eq!(value.value_type(), ValueType::Bool);
    value.release(&mut ctx);

    state.release(&mut ctx);
    store.release(&mut ctx);
    ctx.release();
}

#[test]
fn force_twice_is_a_no_op() {
    let mut ctx = NixContext::new().unwrap();
    let guard = NixInitGuard::new(&mut ctx).unwrap();
    let mut store = NixStore::new(&mut ctx, NixStoreType::Auto).unwrap();
    let mut state = NixState::new(&mut ctx, &mut store, guard).unwrap();
    let value = NixValue::new(&mut ctx, &mut state).unwrap();
    let mut value = value
        .assign_from_expr(&mut ctx, "2 + 3", &mut state, None)
        .unwrap();
    value.force(&mut ctx, &mut state).unwrap();
    let first = value.display();
    value.force(&mut ctx, &mut state).unwrap();
    let second = value.display();
    assert_eq!(first, "5");
    assert_eq!(second, "5");
    value.release(&mut ctx);
    state.release(&mut ctx);
    store.release(&mut ctx);
    ctx.release();
}

#[test]
fn failed_force_keeps_the_value_usable() {
    let mut ctx = NixContext::new().unwrap();
    let guard = NixInitGuard::new(&mut ctx).unwrap();
    let mut store = NixStore::new(&mut ctx, NixStoreType::Auto).unwrap();
    let mut state = NixState::new(&mut ctx, &mut store, guard).unwrap();
    let value = NixValue::new(&mut ctx, &mut state).unwrap();
    let mut value = value
        .assign_from_expr(&mut ctx, "nope", &mut state, None)
        .unwrap();
    match value.force(&mut ctx, &mut state) {
        Err(NixError::ForceFailed { message }) => {
            assert_eq!(message, "undefined variable 'nope'");
            assert_eq!(err_msg(&ctx), "undefined variable 'nope'");
        }
        other => panic!("expected a forcing failure, got {:?}", other),
    }
    value.release(&mut ctx);
    state.release(&mut ctx);
    store.release(&mut ctx);
    assert_eq!(ctx.live_handles(), 0);
    ctx.release();
}

#[test]
fn typed_accessors_match_the_tag() {
    let mut ctx = NixContext::new().unwrap();
    let guard = NixInitGuard::new(&mut ctx).unwrap();
    let mut store = NixStore::new(&mut ctx, NixStoreType::Auto).unwrap();
    let mut state = NixState::new(&mut ctx, &mut store, guard).unwrap();

    let value = NixValue::new(&mut ctx, &mut state).unwrap();
    let mut value = value
        .assign_from_expr(&mut ctx, "\"hi\"", &mut state, None)
        .unwrap();
    value.force(&mut ctx, &mut state).unwrap();
    assert_eq!(value.as_str().as_deref(), Some("hi"));
    assert_eq!(value.as_int(), None);
    assert_eq!(value.as_bool(), None);
    value.release(&mut ctx);

    let value = NixValue::new(&mut ctx, &mut state).unwrap();
    let mut value = value
        .assign_from_expr(&mut ctx, "1 + 1", &mut state, None)
        .unwrap();
    value.force(&mut ctx, &mut state).unwrap();
    assert_eq!(value.as_int(), Some(2));
    assert_eq!(value.as_str(), None);
    value.release(&mut ctx);

    let value = NixValue::new(&mut ctx, &mut state).unwrap();
    let mut value = value
        .assign_from_expr(&mut ctx, "true", &mut state, None)
        .unwrap();
    value.force(&mut ctx, &mut state).unwrap();
    assert_eq!(value.as_bool(), Some(true));
    value.release(&mut ctx);

    state.release(&mut ctx);
    store.release(&mut ctx);
    ctx.release();
}

#[test]
fn display_forced_string() {
    let mut ctx = NixContext::new().unwrap();
    let guard = NixInitGuard::new(&mut ctx).unwrap();
    let mut store = NixStore::new(&mut ctx, NixStoreType::Auto).unwrap();
    let mut state = NixState::new(&mut ctx, &mut store, guard).unwrap();
    let value = NixValue::new(&mut ctx, &mut state).unwrap();
    let mut value = value
        .assign_from_expr(&mut ctx, "\"printable\"", &mut state, None)
        .unwrap();
    value.force(&mut ctx, &mut state).unwrap();
    assert_eq!(value.display(), "printable");
    value.release(&mut ctx);
    state.release(&mut ctx);
    store.release(&mut ctx);
    ctx.release();
}
