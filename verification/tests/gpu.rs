use shui::{
    CompiledShader, CxDrawing, DrawCallResources, DrawRef, GpuCommand, UniformScope, VaoChange,
};

fn shader(id: usize) -> CompiledShader {
    CompiledShader { shader_id: id, ..Default::default() }
}

#[test]
fn handle_without_objects_is_created() {
    let mut res = DrawCallResources::new();
    assert!(!res.attached);
    assert_eq!(res.check_attached_vao(&shader(3)), VaoChange::Create);
    assert_eq!(res, DrawCallResources { resource_shader_id: 3, attached: true });
}

#[test]
fn handle_of_the_same_shader_is_kept() {
    let mut res = DrawCallResources { resource_shader_id: 3, attached: true };
    assert_eq!(res.check_attached_vao(&shader(3)), VaoChange::Keep);
    assert_eq!(res, DrawCallResources { resource_shader_id: 3, attached: true });
}

#[test]
fn handle_of_another_shader_is_recreated() {
    let mut res = DrawCallResources { resource_shader_id: 3, attached: true };
    assert_eq!(res.check_attached_vao(&shader(4)), VaoChange::Recreate);
    assert_eq!(res, DrawCallResources { resource_shader_id: 4, attached: true });
}

#[test]
fn handle_without_objects_ignores_its_old_shader() {
    let mut res = DrawCallResources { resource_shader_id: 3, attached: false };
    assert_eq!(res.check_attached_vao(&shader(3)), VaoChange::Create);
    assert!(res.attached);
}

#[test]
fn free_reports_whether_there_was_something() {
    let mut res = DrawCallResources { resource_shader_id: 3, attached: true };
    assert!(res.free());
    assert_eq!(res, DrawCallResources { resource_shader_id: 3, attached: false });
    assert!(!res.free());
    assert_eq!(res, DrawCallResources { resource_shader_id: 3, attached: false });
}

/// The uniforms that are written from a buffer of `len` words: index,
/// offset and size of each.
fn written(layout: &[usize], len: usize) -> Vec<(usize, usize, usize)> {
    let at = DrawRef { draw_list_id: 3, draw_id: 4 };
    let mut gpu = vec![GpuCommand::Present];
    CxDrawing::set_uniform_buffer_fallback(
        &mut gpu,
        UniformScope::DrawCall,
        at,
        &layout.to_vec(),
        len,
    );
    assert_eq!(gpu[0], GpuCommand::Present);
    gpu[1..]
        .iter()
        .map(|command| match command {
            GpuCommand::SetUniform {
                scope: UniformScope::DrawCall,
                draw_list_id: 3,
                draw_id: 4,
                index,
                offset,
                size,
            } => (*index, *offset, *size),
            other => panic!("not a uniform of the batch: {:?}", other),
        })
        .collect()
}

#[test]
fn fallback_writes_the_uniforms_that_fit() {
    let layout = [16, 4, 1, 2];
    let all = vec![(0, 0, 16), (1, 16, 4), (2, 20, 1), (3, 21, 2)];
    assert_eq!(written(&layout, 0), vec![]);
    assert_eq!(written(&layout, 15), vec![]);
    assert_eq!(written(&layout, 16), all[..1]);
    assert_eq!(written(&layout, 19), all[..1]);
    assert_eq!(written(&layout, 20), all[..2]);
    assert_eq!(written(&layout, 21), all[..3]);
    assert_eq!(written(&layout, 22), all[..3]);
    assert_eq!(written(&layout, 23), all);
    assert_eq!(written(&layout, usize::MAX), all);
}

#[test]
fn fallback_stops_at_the_first_uniform_that_does_not_fit() {
    // The third uniform would fit in what is left, but the second does not.
    assert_eq!(written(&[1, 4, 1], 3), vec![(0, 0, 1)]);
    assert_eq!(written(&[], 10), vec![]);
    assert_eq!(written(&[0, 0], 0), vec![(0, 0, 0), (1, 0, 0)]);
    assert_eq!(written(&[usize::MAX, usize::MAX], usize::MAX), vec![(0, 0, usize::MAX)]);
}

#[test]
fn fallback_names_the_scope() {
    let at = DrawRef { draw_list_id: 1, draw_id: 2 };
    let mut gpu = Vec::new();
    CxDrawing::set_uniform_buffer_fallback(&mut gpu, UniformScope::Context, at, &vec![2], 2);
    CxDrawing::set_uniform_buffer_fallback(&mut gpu, UniformScope::DrawList, at, &vec![2], 2);
    let write = |scope| GpuCommand::SetUniform {
        scope,
        draw_list_id: 1,
        draw_id: 2,
        index: 0,
        offset: 0,
        size: 2,
    };
    assert_eq!(gpu, vec![write(UniformScope::Context), write(UniformScope::DrawList)]);
}
