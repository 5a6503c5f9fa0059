use shui::{CompiledShader, Cx, DrawRef, GpuCommand, UniformScope, Vec4, View};

fn shader(id: usize, instance_slots: usize) -> CompiledShader {
    CompiledShader { shader_id: id, instance_slots, geometry_indices: 6, ..Default::default() }
}

fn cx_with_shaders(n: usize) -> Cx {
    let mut cx = Cx::new();
    for id in 0..n {
        cx.shaders.compiled_shaders.push(shader(id, 2));
    }
    cx
}

fn at(draw_list_id: usize, draw_id: usize) -> DrawRef {
    DrawRef { draw_list_id, draw_id }
}

fn draw(draw_list_id: usize, draw_id: usize, shader_id: usize, instances: usize) -> Vec<GpuCommand> {
    vec![
        GpuCommand::UseShader { shader_id },
        GpuCommand::BindVao { draw_list_id, draw_id },
        GpuCommand::DrawInstanced { instances, indices: 6 },
    ]
}

fn commands(parts: Vec<Vec<GpuCommand>>) -> Vec<GpuCommand> {
    parts.into_iter().flatten().collect()
}

// root: [batch s0] [child A] [batch s1] [child B]
// A:    [batch s1] [child C] [batch s0]
// C:    [batch s2]
// B:    [batch s0]
fn build_tree(cx: &mut Cx) -> [View; 4] {
    let mut root = View::new();
    let mut a = View::new();
    let mut b = View::new();
    let mut c = View::new();
    let s: Vec<CompiledShader> = (0..3).map(|id| shader(id, 2)).collect();
    root.begin(cx);
    cx.drawing.instance(&s[0]).vec2f("p", 1, 1);
    a.begin(cx);
    cx.drawing.instance(&s[1]).vec2f("p", 2, 2);
    c.begin(cx);
    cx.drawing.instance(&s[2]).vec2f("p", 3, 3);
    c.end(cx);
    cx.drawing.draw_list_id = a.draw_list_id;
    cx.drawing.instance(&s[0]).vec2f("p", 4, 4);
    a.end(cx);
    cx.drawing.draw_list_id = root.draw_list_id;
    cx.drawing.instance(&s[1]).vec2f("p", 5, 5);
    b.begin(cx);
    cx.drawing.instance(&s[0]).vec2f("p", 6, 6);
    b.end(cx);
    root.end(cx);
    [root, a, b, c]
}

#[test]
fn draw_order_is_depth_first_pre_order() {
    let mut cx = cx_with_shaders(3);
    let [root, a, b, c] = build_tree(&mut cx);
    assert_eq!((root.draw_list_id, a.draw_list_id, c.draw_list_id, b.draw_list_id), (0, 1, 2, 3));
    let order = cx.drawing.draw_order(0);
    assert_eq!(order, vec![at(0, 0), at(1, 0), at(2, 0), at(1, 2), at(0, 2), at(3, 0)]);
}

#[test]
fn draw_order_visits_every_leaf_once() {
    let mut cx = cx_with_shaders(3);
    build_tree(&mut cx);
    let order = cx.drawing.draw_order(0);
    let mut leaves = Vec::new();
    for (l, list) in cx.drawing.draw_lists.iter().enumerate() {
        for k in 0..list.draws_len {
            if list.draws[k].sub_list_id == 0 {
                leaves.push(at(l, k));
            }
        }
    }
    assert_eq!(order.len(), leaves.len());
    for leaf in &leaves {
        assert_eq!(order.iter().filter(|r| *r == leaf).count(), 1);
    }
}

#[test]
fn draw_order_of_a_sub_tree() {
    let mut cx = cx_with_shaders(3);
    build_tree(&mut cx);
    assert_eq!(cx.drawing.draw_order(1), vec![at(1, 0), at(2, 0), at(1, 2)]);
    assert_eq!(cx.drawing.draw_order(2), vec![at(2, 0)]);
}

#[test]
fn draw_order_of_a_missing_list_is_empty() {
    let mut cx = cx_with_shaders(3);
    assert!(cx.drawing.draw_order(0).is_empty());
    build_tree(&mut cx);
    assert!(cx.drawing.draw_order(4).is_empty());
}

#[test]
fn draw_order_skips_stale_slots() {
    let mut cx = cx_with_shaders(3);
    let mut root = View::new();
    root.begin(&mut cx);
    cx.drawing.instance(&shader(0, 2)).vec2f("p", 1, 1);
    cx.drawing.instance(&shader(1, 2)).vec2f("p", 1, 1);
    root.end(&mut cx);
    root.begin(&mut cx);
    cx.drawing.instance(&shader(0, 2)).vec2f("p", 1, 1);
    root.end(&mut cx);
    assert_eq!(cx.drawing.draw_lists[0].draws.len(), 2);
    assert_eq!(cx.drawing.draw_order(0), vec![at(0, 0)]);
}

#[test]
fn draw_order_does_not_follow_a_cycle_forever() {
    let mut cx = cx_with_shaders(1);
    let mut root = View::new();
    let mut child = View::new();
    root.begin(&mut cx);
    child.begin(&mut cx);
    cx.drawing.instance(&shader(0, 2)).vec2f("p", 1, 1);
    child.end(&mut cx);
    root.end(&mut cx);
    // Make the child refer to itself.
    cx.drawing.draw_list_id = 1;
    cx.drawing.attach_sub_list(1, 1);
    let order = cx.drawing.draw_order(0);
    // Two lists allow two descents from the root's slot.
    assert_eq!(order, vec![at(1, 0), at(1, 0)]);
}

#[test]
fn exec_draw_list_submits_in_draw_order() {
    let mut cx = cx_with_shaders(3);
    build_tree(&mut cx);
    cx.exec_draw_list(0);
    let visited: Vec<(usize, usize)> = cx
        .drawing
        .gpu
        .iter()
        .filter_map(|c| match c {
            GpuCommand::BindVao { draw_list_id, draw_id } => Some((*draw_list_id, *draw_id)),
            _ => None,
        })
        .collect();
    assert_eq!(visited, vec![(0, 0), (1, 0), (2, 0), (1, 2), (0, 2), (3, 0)]);
}

#[test]
fn first_submission_creates_uploads_and_draws() {
    let mut cx = cx_with_shaders(2);
    let mut root = View::new();
    root.begin(&mut cx);
    let dc = cx.drawing.instance(&shader(1, 2));
    dc.vec2f("p", 1, 2);
    dc.vec2f("p", 3, 4);
    dc.vec2f("p", 5, 6);
    root.end(&mut cx);
    cx.exec_draw_list(0);
    assert_eq!(
        cx.drawing.gpu,
        commands(vec![
            vec![
                GpuCommand::CreateVao { draw_list_id: 0, draw_id: 0, shader_id: 1 },
                GpuCommand::UploadInstances { draw_list_id: 0, draw_id: 0 },
            ],
            draw(0, 0, 1, 3),
        ])
    );
    let res = cx.drawing.draw_lists[0].draws[0].resources;
    assert!(res.attached);
    assert_eq!(res.resource_shader_id, 1);
}

#[test]
fn untouched_batch_is_redrawn_without_upload() {
    let mut cx = cx_with_shaders(1);
    let mut root = View::new();
    root.begin(&mut cx);
    cx.drawing.instance(&shader(0, 2)).vec2f("p", 1, 2);
    root.end(&mut cx);
    cx.exec_draw_list(0);
    cx.drawing.gpu.clear();
    cx.drawing.frame_id += 1;
    cx.exec_draw_list(0);
    assert_eq!(cx.drawing.gpu, draw(0, 0, 0, 1));
}

#[test]
fn batch_rebuilt_with_the_same_content_is_uploaded_again() {
    let mut cx = cx_with_shaders(1);
    let mut root = View::new();
    for frame in 1..3 {
        cx.drawing.frame_id = frame;
        root.begin(&mut cx);
        cx.drawing.instance(&shader(0, 2)).vec2f("p", 1, 2);
        root.end(&mut cx);
        cx.drawing.gpu.clear();
        cx.exec_draw_list(0);
    }
    assert_eq!(
        cx.drawing.gpu,
        commands(vec![
            vec![GpuCommand::UploadInstances { draw_list_id: 0, draw_id: 0 }],
            draw(0, 0, 0, 1),
        ])
    );
}

#[test]
fn same_pattern_rebuilt_keeps_gpu_objects() {
    let mut cx = cx_with_shaders(3);
    let mut root = View::new();
    let mut child = View::new();
    let mut creates = Vec::new();
    for frame in 1..4 {
        cx.drawing.frame_id = frame;
        root.begin(&mut cx);
        cx.drawing.instance(&shader(0, 2)).vec2f("p", 1, 2);
        cx.drawing.instance(&shader(1, 2)).vec2f("p", 1, 2);
        child.begin(&mut cx);
        cx.drawing.instance(&shader(2, 2)).vec2f("p", 1, 2);
        child.end(&mut cx);
        cx.drawing.draw_list_id = 0;
        cx.drawing.new_instance_layer(&shader(0, 2)).vec2f("p", 1, 2);
        cx.drawing.instance(&shader(0, 2)).vec2f("p", 3, 4);
        root.end(&mut cx);
        cx.repaint();
        let n = cx
            .drawing
            .gpu
            .iter()
            .filter(|c| matches!(c, GpuCommand::CreateVao { .. } | GpuCommand::DestroyVao { .. }))
            .count();
        creates.push(n);
        cx.drawing.gpu.clear();
    }
    assert_eq!(creates, vec![4, 0, 0]);
}

#[test]
fn changed_shader_destroys_one_handle_then_creates_one() {
    let mut cx = cx_with_shaders(2);
    let mut root = View::new();
    root.begin(&mut cx);
    cx.drawing.instance(&shader(0, 2)).vec2f("p", 1, 2);
    root.end(&mut cx);
    cx.repaint();
    cx.drawing.gpu.clear();

    cx.drawing.frame_id = 1;
    root.begin(&mut cx);
    cx.drawing.instance(&shader(1, 2)).vec2f("p", 1, 2);
    root.end(&mut cx);
    assert_eq!(cx.drawing.gpu, vec![GpuCommand::DestroyVao { draw_list_id: 0, draw_id: 0 }]);
    assert!(!cx.drawing.draw_lists[0].draws[0].resources.attached);
    cx.exec_draw_list(0);
    assert_eq!(
        cx.drawing.gpu,
        commands(vec![
            vec![
                GpuCommand::DestroyVao { draw_list_id: 0, draw_id: 0 },
                GpuCommand::CreateVao { draw_list_id: 0, draw_id: 0, shader_id: 1 },
                GpuCommand::UploadInstances { draw_list_id: 0, draw_id: 0 },
            ],
            draw(0, 0, 1, 1),
        ])
    );
}

#[test]
fn changed_shader_before_any_repaint_destroys_nothing() {
    let mut cx = cx_with_shaders(2);
    let mut root = View::new();
    root.begin(&mut cx);
    cx.drawing.instance(&shader(0, 2)).vec2f("p", 1, 2);
    root.end(&mut cx);
    root.begin(&mut cx);
    cx.drawing.instance(&shader(1, 2)).vec2f("p", 1, 2);
    root.end(&mut cx);
    assert!(cx.drawing.gpu.is_empty());
}

#[test]
fn handle_made_for_another_shader_is_replaced_at_submission() {
    let mut cx = cx_with_shaders(2);
    let mut root = View::new();
    root.begin(&mut cx);
    cx.drawing.instance(&shader(0, 2)).vec2f("p", 1, 2);
    root.end(&mut cx);
    cx.exec_draw_list(0);
    cx.drawing.gpu.clear();
    cx.drawing.draw_lists[0].draws[0].shader_id = 1;
    cx.drawing.frame_id = 5;
    cx.submit_batch(at(0, 0));
    assert_eq!(
        cx.drawing.gpu,
        commands(vec![
            vec![
                GpuCommand::DestroyVao { draw_list_id: 0, draw_id: 0 },
                GpuCommand::CreateVao { draw_list_id: 0, draw_id: 0, shader_id: 1 },
            ],
            draw(0, 0, 1, 1),
        ])
    );
}

#[test]
fn submission_passes_over_what_cannot_be_drawn() {
    let mut cx = cx_with_shaders(1);
    let mut root = View::new();
    root.begin(&mut cx);
    cx.drawing.instance(&shader(9, 2)).vec2f("p", 1, 2);
    root.end(&mut cx);
    cx.submit_batch(at(0, 0));
    cx.submit_batch(at(0, 1));
    cx.submit_batch(at(3, 0));
    assert!(cx.drawing.gpu.is_empty());
    assert!(!cx.drawing.draw_lists[0].draws[0].resources.attached);
}

#[test]
fn submission_passes_over_references_and_stale_slots() {
    let mut cx = cx_with_shaders(2);
    let mut root = View::new();
    let mut child = View::new();
    root.begin(&mut cx);
    child.begin(&mut cx);
    child.end(&mut cx);
    cx.drawing.draw_list_id = 0;
    cx.drawing.instance(&shader(1, 2)).vec2f("p", 1, 2);
    root.end(&mut cx);
    // The second rebuild leaves slot 1 behind the live ones.
    root.begin(&mut cx);
    child.begin(&mut cx);
    child.end(&mut cx);
    root.end(&mut cx);
    assert_eq!(cx.drawing.draw_lists[0].draws_len, 1);
    assert_eq!(cx.drawing.draw_lists[0].draws.len(), 2);
    // Slot 0 refers to the child, slot 1 is stale: neither is drawn, and
    // neither is given GPU objects.
    cx.submit_batch(at(0, 0));
    cx.submit_batch(at(0, 1));
    assert!(cx.drawing.gpu.is_empty());
    assert!(!cx.drawing.draw_lists[0].draws[0].resources.attached);
    assert!(!cx.drawing.draw_lists[0].draws[1].resources.attached);
}

#[test]
fn resize_repaint_does_not_upload_an_untouched_batch() {
    let mut cx = cx_with_shaders(1);
    let mut root = View::new();
    assert_eq!(cx.event_loop_start_at(0), shui::DriverAction::PollInput);
    cx.dirty_area = shui::Area::All;
    cx.event_loop_step_at(shui::DriverSignal::QueueEmpty, 0);
    root.begin(&mut cx);
    cx.drawing.instance(&shader(0, 2)).vec2f("p", 1, 2);
    root.end(&mut cx);
    cx.event_loop_step_at(shui::DriverSignal::Done, 0);
    cx.repaint();
    cx.drawing.gpu.clear();
    cx.event_loop_step_at(shui::DriverSignal::Done, 0);
    // A resize whose redraw leaves the batch as it is.
    cx.event_loop_step_at(shui::DriverSignal::Input { resized: true }, 0);
    cx.event_loop_step_at(shui::DriverSignal::Done, 0);
    cx.event_loop_step_at(shui::DriverSignal::Done, 0);
    assert_eq!(cx.event_loop_step_at(shui::DriverSignal::Done, 0), shui::DriverAction::Repaint);
    cx.exec_draw_list(0);
    assert_eq!(cx.drawing.gpu, draw(0, 0, 0, 1));
}

#[test]
fn instance_count_is_length_over_stride() {
    let mut cx = Cx::new();
    cx.shaders.compiled_shaders.push(shader(0, 3));
    cx.shaders.compiled_shaders.push(shader(1, 0));
    let mut root = View::new();
    root.begin(&mut cx);
    let dc = cx.drawing.instance(&shader(0, 3));
    for i in 0..7 {
        dc.float("x", i);
    }
    cx.drawing.instance(&shader(1, 0)).float("x", 1);
    root.end(&mut cx);
    cx.exec_draw_list(0);
    let draws: Vec<GpuCommand> = cx
        .drawing
        .gpu
        .iter()
        .filter(|c| matches!(c, GpuCommand::DrawInstanced { .. }))
        .copied()
        .collect();
    assert_eq!(
        draws,
        vec![
            GpuCommand::DrawInstanced { instances: 2, indices: 6 },
            GpuCommand::DrawInstanced { instances: 0, indices: 6 },
        ]
    );
}

#[test]
fn uniforms_and_textures_are_bound_as_far_as_they_were_written() {
    let mut cx = Cx::new();
    cx.shaders.compiled_shaders.push(CompiledShader {
        shader_id: 0,
        instance_slots: 1,
        geometry_indices: 3,
        uniforms_cx: vec![16, 1],
        uniforms_dl: vec![1, 4],
        uniforms_dr: vec![2, 1, 4],
        texture_slots: 2,
        ..Default::default()
    });
    cx.uniforms = vec![0; 16];
    let mut root = View::new();
    root.begin(&mut cx);
    let dc = cx.drawing.instance(&shader(0, 1));
    dc.float("x", 1);
    dc.uvec2f("a", 1, 2);
    dc.ufloat("b", 3);
    dc.ufloat("c_first_of_four", 4);
    dc.texture("t", 8);
    root.end(&mut cx);
    cx.exec_draw_list(0);
    let uniform = |scope, index, offset, size| GpuCommand::SetUniform {
        scope,
        draw_list_id: 0,
        draw_id: 0,
        index,
        offset,
        size,
    };
    assert_eq!(
        cx.drawing.gpu,
        vec![
            GpuCommand::CreateVao { draw_list_id: 0, draw_id: 0, shader_id: 0 },
            GpuCommand::UploadInstances { draw_list_id: 0, draw_id: 0 },
            GpuCommand::UseShader { shader_id: 0 },
            GpuCommand::BindVao { draw_list_id: 0, draw_id: 0 },
            // The context has sixteen words: the matrix, and nothing for the
            // scalar behind it.
            uniform(UniformScope::Context, 0, 0, 16),
            // The draw list has one word: the scalar, not the vector.
            uniform(UniformScope::DrawList, 0, 0, 1),
            // The batch wrote four words: two uniforms, and one word of the
            // third, which is left alone.
            uniform(UniformScope::DrawCall, 0, 0, 2),
            uniform(UniformScope::DrawCall, 1, 2, 1),
            // Two texture slots, one texture.
            GpuCommand::BindTexture { slot: 0, texture_id: 8 },
            GpuCommand::DrawInstanced { instances: 1, indices: 3 },
        ]
    );
}

#[test]
fn textures_are_bound_slot_by_slot() {
    let mut gpu = Vec::new();
    shui::CxDrawing::set_texture_slots(&mut gpu, 2, &vec![5, 6, 7]);
    assert_eq!(
        gpu,
        vec![
            GpuCommand::BindTexture { slot: 0, texture_id: 5 },
            GpuCommand::BindTexture { slot: 1, texture_id: 6 },
        ]
    );
    shui::CxDrawing::set_texture_slots(&mut gpu, 0, &vec![5]);
    shui::CxDrawing::set_texture_slots(&mut gpu, 3, &Vec::new());
    assert_eq!(gpu.len(), 2);
}

#[test]
fn repaint_clears_replays_and_presents() {
    let mut cx = cx_with_shaders(1);
    cx.clear_color = Vec4 { x: 1, y: 2, z: 3, w: 4 };
    let mut root = View::new();
    root.begin(&mut cx);
    cx.drawing.instance(&shader(0, 2)).vec2f("p", 1, 2);
    root.end(&mut cx);
    cx.repaint();
    assert_eq!(
        cx.drawing.gpu,
        commands(vec![
            vec![
                GpuCommand::Clear { color: Vec4 { x: 1, y: 2, z: 3, w: 4 } },
                GpuCommand::CreateVao { draw_list_id: 0, draw_id: 0, shader_id: 0 },
                GpuCommand::UploadInstances { draw_list_id: 0, draw_id: 0 },
            ],
            draw(0, 0, 0, 1),
            vec![GpuCommand::Present],
        ])
    );
}

#[test]
fn repaint_of_an_empty_context_clears_and_presents() {
    let mut cx = Cx::new();
    cx.repaint();
    assert_eq!(
        cx.drawing.gpu,
        vec![GpuCommand::Clear { color: Vec4::default() }, GpuCommand::Present]
    );
}
