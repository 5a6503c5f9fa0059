use shui::{CompiledShader, Cx, GpuCommand, View};

fn shader(id: usize) -> CompiledShader {
    CompiledShader { shader_id: id, instance_slots: 1, ..Default::default() }
}

fn begun() -> (Cx, View) {
    let mut cx = Cx::new();
    let mut view = View::new();
    view.begin(&mut cx);
    (cx, view)
}

#[test]
fn interleaved_shaders_make_two_batches() {
    let (mut cx, mut view) = begun();
    let a = shader(1);
    let b = shader(2);
    cx.drawing.instance(&a).float("x", 10);
    cx.drawing.instance(&b).float("x", 20);
    cx.drawing.instance(&a).float("x", 11);
    view.end(&mut cx);
    let list = &cx.drawing.draw_lists[view.draw_list_id];
    assert_eq!(list.draws_len, 2);
    assert_eq!(list.draws[0].shader_id, 1);
    assert_eq!(list.draws[0].instance, vec![10, 11]);
    assert_eq!(list.draws[1].shader_id, 2);
    assert_eq!(list.draws[1].instance, vec![20]);
    assert_eq!(cx.drawing.gpu, Vec::<GpuCommand>::new());
}

#[test]
fn interleaving_reorders_paint_order() {
    // The second issuance for shader 1 is painted with the first, beneath
    // what shader 2 drew in between: the batch keeps the place of its first
    // issuance.
    let (mut cx, _view) = begun();
    cx.drawing.instance(&shader(1)).float("under", 1);
    cx.drawing.instance(&shader(2)).float("middle", 2);
    cx.drawing.instance(&shader(1)).float("meant_on_top", 3);
    let order = cx.drawing.draw_order(0);
    assert_eq!(order.len(), 2);
    assert_eq!(cx.drawing.draw_lists[0].draws[order[0].draw_id].instance, vec![1, 3]);
    assert_eq!(cx.drawing.draw_lists[0].draws[order[1].draw_id].instance, vec![2]);
}

#[test]
fn run_of_one_shader_lands_in_one_batch() {
    let (mut cx, _view) = begun();
    let a = shader(7);
    for i in 0..5u32 {
        let dc = cx.drawing.instance(&a);
        assert_eq!(dc.draw_id, 0);
        assert_eq!(dc.current_instance_offset, (2 * i) as usize);
        assert_eq!(dc.first, i == 0);
        dc.vec2f("pos", i, 100 + i);
    }
    let list = &cx.drawing.draw_lists[0];
    assert_eq!(list.draws_len, 1);
    assert_eq!(list.draws.len(), 1);
    assert_eq!(list.draws[0].instance, vec![0, 100, 1, 101, 2, 102, 3, 103, 4, 104]);
}

#[test]
fn nearest_preceding_batch_wins() {
    let (mut cx, _view) = begun();
    let a = shader(1);
    cx.drawing.instance(&a).float("x", 1);
    cx.drawing.new_instance_layer(&a).float("x", 2);
    cx.drawing.instance(&shader(2)).float("x", 3);
    let dc = cx.drawing.instance(&a);
    assert_eq!(dc.draw_id, 1);
    dc.float("x", 4);
    let list = &cx.drawing.draw_lists[0];
    assert_eq!(list.draws_len, 3);
    assert_eq!(list.draws[0].instance, vec![1]);
    assert_eq!(list.draws[1].instance, vec![2, 4]);
    assert_eq!(list.draws[2].instance, vec![3]);
}

#[test]
fn layer_boundary_makes_a_second_slot() {
    let (mut cx, _view) = begun();
    let a = shader(4);
    assert_eq!(cx.drawing.instance(&a).draw_id, 0);
    cx.drawing.draw_lists[0].draws[0].float("x", 1);
    let layer = cx.drawing.new_instance_layer(&a);
    assert_eq!(layer.draw_id, 1);
    assert!(layer.first);
    assert_eq!(layer.shader_id, 4);
    let dc = cx.drawing.instance(&a);
    assert_eq!(dc.draw_id, 1);
    assert!(!dc.first);
    dc.float("x", 2);
    let list = &cx.drawing.draw_lists[0];
    assert_eq!(list.draws_len, 2);
    assert_eq!(list.draws[0].shader_id, 4);
    assert_eq!(list.draws[1].shader_id, 4);
    assert_eq!(list.draws[0].instance, vec![1]);
    assert_eq!(list.draws[1].instance, vec![2]);
}

#[test]
fn new_batch_is_stamped_with_the_frame() {
    let (mut cx, _view) = begun();
    cx.drawing.frame_id = 9;
    let dc = cx.drawing.instance(&shader(1));
    assert_eq!(dc.update_frame_id, 9);
    assert_eq!(dc.sub_list_id, 0);
    assert_eq!(dc.current_instance_offset, 0);
    assert!(dc.first);
    assert!(!dc.resources.attached);
}

#[test]
fn rebuild_claims_slots_again_and_empties_them() {
    let (mut cx, mut view) = begun();
    let a = shader(1);
    let dc = cx.drawing.instance(&a);
    dc.float("x", 1);
    dc.ufloat("u", 2);
    dc.texture("t", 3);
    view.end(&mut cx);
    cx.drawing.frame_id = 1;
    view.begin(&mut cx);
    assert_eq!(cx.drawing.draw_lists[0].draws_len, 0);
    assert_eq!(cx.drawing.draw_lists[0].draws.len(), 1);
    let dc = cx.drawing.instance(&a);
    assert_eq!(dc.draw_id, 0);
    assert!(dc.instance.is_empty());
    assert!(dc.uniforms.is_empty());
    assert!(dc.textures.is_empty());
    assert_eq!(dc.update_frame_id, 1);
    assert!(dc.first);
    assert_eq!(cx.drawing.draw_lists[0].draws_len, 1);
    assert_eq!(cx.drawing.draw_lists[0].draws.len(), 1);
}

#[test]
fn stale_slot_is_not_joined() {
    // A slot behind the live ones holds a batch of the shader from the last
    // rebuild. It is not found by the scan: the issuance claims slot 0.
    let (mut cx, mut view) = begun();
    cx.drawing.instance(&shader(1)).float("x", 1);
    cx.drawing.instance(&shader(2)).float("x", 2);
    view.end(&mut cx);
    view.begin(&mut cx);
    let dc = cx.drawing.instance(&shader(2));
    assert_eq!(dc.draw_id, 0);
    assert!(dc.instance.is_empty());
    assert_eq!(cx.drawing.draw_lists[0].draws_len, 1);
}

#[test]
fn sub_list_slot_is_never_joined() {
    let mut cx = Cx::new();
    let mut root = View::new();
    let mut child = View::new();
    root.begin(&mut cx);
    child.begin(&mut cx);
    child.end(&mut cx);
    // The slot that refers to the child holds shader identity 0 in its unused
    // fields. An issuance for shader 0 into the root must not land in it.
    cx.drawing.draw_list_id = root.draw_list_id;
    let dc = cx.drawing.instance(&shader(0));
    assert_eq!(dc.draw_id, 1);
    assert_eq!(cx.drawing.draw_lists[0].draws[0].sub_list_id, child.draw_list_id);
    assert_eq!(cx.drawing.draw_lists[0].draws_len, 2);
}
