use bevy_state_macros::{group_entries, RegistrationKey, Registry, TriggerKind};

fn key(state: &str, variant: &str, kind: TriggerKind) -> RegistrationKey {
    RegistrationKey { state_type: state.to_string(), variant: variant.to_string(), kind }
}

fn groups(r: &Registry<&'static str>) -> Vec<(String, String, TriggerKind, Vec<&'static str>)> {
    (0..r.len())
        .map(|a| {
            let k = r.key(a);
            (k.state_type.clone(), k.variant.clone(), k.kind, r.members(a).clone())
        })
        .collect()
}

fn g(s: &str, v: &str, k: TriggerKind, m: &[&'static str]) -> (String, String, TriggerKind, Vec<&'static str>) {
    (s.to_string(), v.to_string(), k, m.to_vec())
}

#[test]
fn equal_keys_merge_in_order() {
    let r = group_entries(vec![
        (key("S", "X", TriggerKind::Update), "a"),
        (key("S", "X", TriggerKind::Update), "b"),
    ]);
    assert_eq!(groups(&r), vec![g("S", "X", TriggerKind::Update, &["a", "b"])]);
}

#[test]
fn different_keys_stay_apart() {
    let r = group_entries(vec![
        (key("S", "X", TriggerKind::Update), "a"),
        (key("S", "Y", TriggerKind::Update), "b"),
        (key("S", "X", TriggerKind::Enter), "c"),
        (key("T", "X", TriggerKind::Update), "d"),
    ]);
    assert_eq!(
        groups(&r),
        vec![
            g("S", "X", TriggerKind::Update, &["a"]),
            g("S", "Y", TriggerKind::Update, &["b"]),
            g("S", "X", TriggerKind::Enter, &["c"]),
            g("T", "X", TriggerKind::Update, &["d"]),
        ]
    );
}

#[test]
fn first_occurrence_decides_group_order() {
    let r = group_entries(vec![
        (key("S", "K1", TriggerKind::Update), "first"),
        (key("S", "K2", TriggerKind::Update), "second"),
        (key("S", "K1", TriggerKind::Update), "third"),
    ]);
    assert_eq!(
        groups(&r),
        vec![
            g("S", "K1", TriggerKind::Update, &["first", "third"]),
            g("S", "K2", TriggerKind::Update, &["second"]),
        ]
    );
}

#[test]
fn same_function_with_other_generics_is_kept() {
    let r = group_entries(vec![
        (key("S", "X", TriggerKind::Exit), "f::<A>"),
        (key("S", "X", TriggerKind::Exit), "f::<B>"),
        (key("S", "X", TriggerKind::Exit), "f::<A>"),
    ]);
    assert_eq!(groups(&r), vec![g("S", "X", TriggerKind::Exit, &["f::<A>", "f::<B>", "f::<A>"])]);
}

#[test]
fn companion_calls_match_one_batch() {
    // A batch registers s1 and s3; a companion routine then adds s2 to the
    // same map, then the batch goes on with s4.
    let mut fed: Registry<&'static str> = Registry::new();
    fed.add(key("S", "X", TriggerKind::Update), "s1");
    fed.add(key("S", "Y", TriggerKind::Enter), "s3");
    fed.add(key("S", "X", TriggerKind::Update), "s2");
    fed.add(key("S", "Y", TriggerKind::Enter), "s4");
    let batch = group_entries(vec![
        (key("S", "X", TriggerKind::Update), "s1"),
        (key("S", "Y", TriggerKind::Enter), "s3"),
        (key("S", "X", TriggerKind::Update), "s2"),
        (key("S", "Y", TriggerKind::Enter), "s4"),
    ]);
    assert_eq!(groups(&fed), groups(&batch));
    assert_eq!(
        groups(&fed),
        vec![
            g("S", "X", TriggerKind::Update, &["s1", "s2"]),
            g("S", "Y", TriggerKind::Enter, &["s3", "s4"]),
        ]
    );
}

#[test]
fn empty_registry() {
    let r: Registry<&'static str> = group_entries(Vec::new());
    assert_eq!(r.len(), 0);
}
