use llm_toy::binder::{
    build_inputs, build_int_tensor, plan_inputs, slot_role, BoundData, ElemKind, IntBuffer, SlotRole, TensorSlot,
};
use llm_toy::error::GenerationError;
use llm_toy::shape::{is_cache_slot, resolve_dynamic_shape, token_shape};

#[test]
fn fixed_dims_pass_through_for_any_length() {
    for len in [1usize, 2, 7, 512] {
        assert_eq!(resolve_dynamic_shape("input_ids", &vec![1, 16, 64], len), vec![1, 16, 64]);
        assert_eq!(resolve_dynamic_shape("past_key_values.0.key", &vec![2, 3], len), vec![2, 3]);
    }
}

#[test]
fn plain_dynamic_dims_are_batch_then_length() {
    assert_eq!(resolve_dynamic_shape("hidden", &vec![-1], 9), vec![1]);
    assert_eq!(resolve_dynamic_shape("hidden", &vec![4, -1], 9), vec![4, 1]);
    assert_eq!(resolve_dynamic_shape("hidden", &vec![-1, -1, 32], 9), vec![1, 9, 32]);
    assert_eq!(resolve_dynamic_shape("hidden", &vec![-1, 5, -1, -1], 3), vec![1, 5, 3, 3]);
}

#[test]
fn cache_pair_resolves_to_empty_cache() {
    for len in [1usize, 4, 100] {
        assert_eq!(resolve_dynamic_shape("past_key_values.3.value", &vec![-1, -1], len), vec![1, 0]);
        assert_eq!(resolve_dynamic_shape("past", &vec![-1, -1], len), vec![1, 0]);
    }
    assert_eq!(resolve_dynamic_shape("past_key_values.0.key", &vec![-1, 8, -1, 64], 5), vec![1, 8, 0, 64]);
}

#[test]
fn cache_names_are_recognised() {
    assert!(is_cache_slot("past_key_values.0.key"));
    assert!(is_cache_slot("layer_past"));
    assert!(!is_cache_slot("input_ids"));
    assert!(!is_cache_slot("pas"));
}

#[test]
fn token_shape_follows_rank() {
    assert_eq!(token_shape(1, 6), vec![6]);
    assert_eq!(token_shape(2, 6), vec![1, 6]);
    assert_eq!(token_shape(3, 0), vec![1, 0]);
}

#[test]
fn slots_are_classified_by_name() {
    assert_eq!(slot_role("input_ids", "input_ids"), SlotRole::Tokens);
    assert_eq!(slot_role("attention_mask", "input_ids"), SlotRole::AttentionMask);
    assert_eq!(slot_role("position_ids", "input_ids"), SlotRole::PositionIds);
    assert_eq!(slot_role("token_type_ids", "input_ids"), SlotRole::TokenTypeIds);
    assert_eq!(slot_role("past_key_values.0.key", "input_ids"), SlotRole::State);
    assert_eq!(slot_role("tokens", "tokens"), SlotRole::Tokens);
}

fn slot(name: &str, elem: ElemKind, dims: Vec<i64>) -> TensorSlot {
    TensorSlot { name: name.to_string(), elem, dims }
}

#[test]
fn every_slot_gets_its_tensor() {
    let slots = vec![
        slot("input_ids", ElemKind::Int64, vec![-1, -1]),
        slot("attention_mask", ElemKind::Int64, vec![-1, -1]),
        slot("position_ids", ElemKind::Int32, vec![-1]),
        slot("token_type_ids", ElemKind::Int64, vec![-1, -1]),
        slot("past_key_values.0.key", ElemKind::Float32, vec![-1, 4, -1, 8]),
    ];
    let ids = vec![50, 10, 50, 61];
    let plans = plan_inputs(&slots, &ids, "input_ids");
    assert_eq!(plans.len(), 5);
    let names: Vec<&str> = plans.iter().map(|p| p.name.as_str()).collect();
    assert_eq!(names, vec!["input_ids", "attention_mask", "position_ids", "token_type_ids", "past_key_values.0.key"]);
    assert_eq!(plans[0].shape, vec![1, 4]);
    assert_eq!(plans[0].values, Some(vec![50, 10, 50, 61]));
    assert_eq!(plans[1].values, Some(vec![1, 1, 1, 1]));
    assert_eq!(plans[2].shape, vec![4]);
    assert_eq!(plans[2].values, Some(vec![0, 1, 2, 3]));
    assert_eq!(plans[3].values, Some(vec![0, 0, 0, 0]));
    assert_eq!(plans[4].shape, vec![1, 4, 0, 8]);
    assert_eq!(plans[4].values, None);
    assert_eq!(plans[4].elem, ElemKind::Float32);
    assert_eq!(ids, vec![50, 10, 50, 61]);
}

#[test]
fn values_are_narrowed_to_the_slot_type() {
    let data = vec![1, -1, 300, 70000];
    match build_int_tensor(ElemKind::Int64, &data).unwrap() {
        IntBuffer::I64(v) => assert_eq!(v, vec![1, -1, 300, 70000]),
        other => panic!("unexpected {:?}", other),
    }
    match build_int_tensor(ElemKind::Int32, &data).unwrap() {
        IntBuffer::I32(v) => assert_eq!(v, vec![1, -1, 300, 70000]),
        other => panic!("unexpected {:?}", other),
    }
    match build_int_tensor(ElemKind::Uint8, &data).unwrap() {
        IntBuffer::U8(v) => assert_eq!(v, vec![1, 255, 44, 112]),
        other => panic!("unexpected {:?}", other),
    }
    match build_int_tensor(ElemKind::Int8, &data).unwrap() {
        IntBuffer::I8(v) => assert_eq!(v, vec![1, -1, 44, 112]),
        other => panic!("unexpected {:?}", other),
    }
    match build_int_tensor(ElemKind::Uint16, &data).unwrap() {
        IntBuffer::U16(v) => assert_eq!(v, vec![1, 65535, 300, 4464]),
        other => panic!("unexpected {:?}", other),
    }
    match build_int_tensor(ElemKind::Uint32, &data).unwrap() {
        IntBuffer::U32(v) => assert_eq!(v, vec![1, u32::MAX, 300, 70000]),
        other => panic!("unexpected {:?}", other),
    }
    match build_int_tensor(ElemKind::Uint64, &data).unwrap() {
        IntBuffer::U64(v) => assert_eq!(v, vec![1, u64::MAX, 300, 70000]),
        other => panic!("unexpected {:?}", other),
    }
}

#[test]
fn non_integer_slot_type_is_refused() {
    for kind in [ElemKind::Float32, ElemKind::Float16, ElemKind::Bool, ElemKind::String, ElemKind::Int16] {
        match build_int_tensor(kind, &vec![1, 2]) {
            Err(GenerationError::UnsupportedTensorType(k)) => assert_eq!(k, kind),
            other => panic!("unexpected {:?}", other),
        }
    }
}

#[test]
fn bound_inputs_narrow_and_keep_placeholders() {
    let slots = vec![
        slot("input_ids", ElemKind::Int32, vec![-1, -1]),
        slot("past_key_values.0.value", ElemKind::Float16, vec![-1, 2, -1, 4]),
    ];
    let bound = build_inputs(&slots, &vec![7, 8, 9], "input_ids").unwrap();
    assert_eq!(bound.len(), 2);
    assert_eq!(bound[0].name, "input_ids");
    assert_eq!(bound[0].shape, vec![1, 3]);
    match &bound[0].data {
        BoundData::Ints(IntBuffer::I32(v)) => assert_eq!(v, &vec![7, 8, 9]),
        other => panic!("unexpected {:?}", other),
    }
    assert_eq!(bound[1].shape, vec![1, 2, 0, 4]);
    assert!(matches!(bound[1].data, BoundData::Empty(ElemKind::Float16)));
}

#[test]
fn first_non_integer_token_slot_is_reported() {
    let slots = vec![
        slot("past", ElemKind::Float32, vec![-1]),
        slot("attention_mask", ElemKind::Bool, vec![-1, -1]),
        slot("input_ids", ElemKind::Float32, vec![-1, -1]),
    ];
    match build_inputs(&slots, &vec![1], "input_ids") {
        Err(GenerationError::UnsupportedTensorType(k)) => assert_eq!(k, ElemKind::Bool),
        other => panic!("unexpected {:?}", other),
    }
}
