use dsge_vk::geometry_pass::{plan_draws, DrawItem, InstanceRun};

fn item(shader_hash: u64, material_id: u64, buffer_id: u64, mesh_id: u64, visible: bool) -> DrawItem {
    DrawItem { shader_hash, material_id, buffer_id, mesh_id, visible }
}

#[test]
fn objects_are_sorted_and_hidden_ones_dropped() {
    let items = vec![
        item(2, 1, 1, 1, true),
        item(1, 5, 1, 1, true),
        item(1, 3, 2, 2, false),
        item(1, 3, 1, 1, true),
        item(1, 3, 1, 1, true),
    ];
    let plan = plan_draws(&items);
    assert_eq!(plan.order, vec![3, 4, 1, 0]);
}

#[test]
fn instances_are_grouped_into_draw_calls() {
    let items = vec![
        item(1, 1, 1, 10, true),
        item(1, 1, 1, 10, true),
        item(1, 1, 1, 11, true),
        item(1, 2, 1, 10, true),
        item(1, 2, 2, 20, true),
    ];
    let plan = plan_draws(&items);
    assert_eq!(plan.order, vec![0, 1, 2, 3, 4]);
    assert_eq!(plan.calls.len(), 3);
    assert_eq!(plan.calls[0].material_id, 1);
    assert_eq!(
        plan.calls[0].runs,
        vec![
            InstanceRun { mesh_id: 10, first_instance: 0, instance_count: 2 },
            InstanceRun { mesh_id: 11, first_instance: 2, instance_count: 1 },
        ]
    );
    assert_eq!(plan.calls[1].material_id, 2);
    assert_eq!(plan.calls[1].buffer_id, 1);
    assert_eq!(plan.calls[1].runs, vec![InstanceRun { mesh_id: 10, first_instance: 3, instance_count: 1 }]);
    assert_eq!(plan.calls[2].buffer_id, 2);
    assert_eq!(plan.calls[2].runs, vec![InstanceRun { mesh_id: 20, first_instance: 4, instance_count: 1 }]);
}

#[test]
fn empty_list_draws_nothing() {
    let plan = plan_draws(&vec![item(1, 1, 1, 1, false)]);
    assert!(plan.order.is_empty());
    assert!(plan.calls.is_empty());
}
