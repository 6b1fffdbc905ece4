use surfman_chains::gl::{
    clear_commands, restore_commands, Capability, Color, FramebufferTarget, GlCommand, GlState,
    FULL_STENCIL_MASK, ONE,
};

const BLACK: Color = Color { red: 0, green: 0, blue: 0, alpha: 0 };

fn some_state() -> GlState {
    GlState {
        draw_framebuffer: 3,
        read_framebuffer: 4,
        clear_color: Color {
            red: 0.25f32.to_bits(),
            green: 0.5f32.to_bits(),
            blue: 0.75f32.to_bits(),
            alpha: 1.0f32.to_bits(),
        },
        clear_depth: 0.5f32.to_bits(),
        clear_stencil: 7,
        red_mask: 1,
        green_mask: 0,
        blue_mask: 255,
        alpha_mask: 0,
        depth_mask: 0,
        stencil_mask: 0x0f,
        scissor_test: true,
        rasterizer_discard: true,
    }
}

// The state once a list of commands has run.
fn run(before: GlState, commands: &[GlCommand]) -> GlState {
    let mut state = before;
    for command in commands {
        match *command {
            GlCommand::BindFramebuffer { target, framebuffer } => match target {
                FramebufferTarget::Framebuffer => {
                    state.draw_framebuffer = framebuffer as i32;
                    state.read_framebuffer = framebuffer as i32;
                }
                FramebufferTarget::DrawFramebuffer => state.draw_framebuffer = framebuffer as i32,
                FramebufferTarget::ReadFramebuffer => state.read_framebuffer = framebuffer as i32,
            },
            GlCommand::ClearColor { color } => state.clear_color = color,
            GlCommand::ClearDepth { depth } => state.clear_depth = depth,
            GlCommand::ClearStencil { stencil } => state.clear_stencil = stencil,
            GlCommand::Enable { capability: Capability::ScissorTest } => state.scissor_test = true,
            GlCommand::Enable { capability: Capability::RasterizerDiscard } => {
                state.rasterizer_discard = true
            }
            GlCommand::Disable { capability: Capability::ScissorTest } => {
                state.scissor_test = false
            }
            GlCommand::Disable { capability: Capability::RasterizerDiscard } => {
                state.rasterizer_discard = false
            }
            GlCommand::ColorMask { red, green, blue, alpha } => {
                state.red_mask = red as u8;
                state.green_mask = green as u8;
                state.blue_mask = blue as u8;
                state.alpha_mask = alpha as u8;
            }
            GlCommand::DepthMask { write } => state.depth_mask = write as u8,
            GlCommand::StencilMask { mask } => state.stencil_mask = mask as i32,
            GlCommand::ClearAllBuffers => {}
        }
    }
    state
}

#[test]
fn clear_lists_its_commands() {
    assert_eq!(
        clear_commands(9),
        vec![
            GlCommand::BindFramebuffer { target: FramebufferTarget::Framebuffer, framebuffer: 9 },
            GlCommand::ClearColor { color: BLACK },
            GlCommand::ClearDepth { depth: 0x3f80_0000 },
            GlCommand::ClearStencil { stencil: 0 },
            GlCommand::Disable { capability: Capability::ScissorTest },
            GlCommand::Disable { capability: Capability::RasterizerDiscard },
            GlCommand::DepthMask { write: true },
            GlCommand::StencilMask { mask: 0xffff_ffff },
            GlCommand::ColorMask { red: true, green: true, blue: true, alpha: true },
            GlCommand::ClearAllBuffers,
        ]
    );
}

#[test]
fn constants_have_the_bits_of_their_values() {
    assert_eq!(f32::from_bits(ONE), 1.0f32);
    assert_eq!(f32::from_bits(BLACK.alpha), 0.0f32);
    assert_eq!(FULL_STENCIL_MASK, u32::MAX);
}

#[test]
fn restore_lists_its_commands() {
    let state = some_state();
    assert_eq!(
        restore_commands(&state),
        vec![
            GlCommand::BindFramebuffer {
                target: FramebufferTarget::DrawFramebuffer,
                framebuffer: 3,
            },
            GlCommand::BindFramebuffer {
                target: FramebufferTarget::ReadFramebuffer,
                framebuffer: 4,
            },
            GlCommand::ClearColor { color: state.clear_color },
            GlCommand::ColorMask { red: true, green: false, blue: true, alpha: false },
            GlCommand::ClearDepth { depth: 0x3f00_0000 },
            GlCommand::ClearStencil { stencil: 7 },
            GlCommand::DepthMask { write: false },
            GlCommand::StencilMask { mask: 0x0f },
            GlCommand::Enable { capability: Capability::ScissorTest },
            GlCommand::Enable { capability: Capability::RasterizerDiscard },
        ]
    );
}

#[test]
fn restore_enables_only_what_was_on() {
    let enabled = |scissor_test: bool, rasterizer_discard: bool| -> Vec<GlCommand> {
        let state = GlState { scissor_test, rasterizer_discard, ..some_state() };
        restore_commands(&state)[8..].to_vec()
    };
    assert_eq!(enabled(false, false), vec![]);
    assert_eq!(
        enabled(true, false),
        vec![GlCommand::Enable { capability: Capability::ScissorTest }]
    );
    assert_eq!(
        enabled(false, true),
        vec![GlCommand::Enable { capability: Capability::RasterizerDiscard }]
    );
}

#[test]
fn restore_reads_integers_as_unsigned() {
    let state = GlState { draw_framebuffer: -1, stencil_mask: -1, ..some_state() };
    let commands = restore_commands(&state);
    assert_eq!(
        commands[0],
        GlCommand::BindFramebuffer {
            target: FramebufferTarget::DrawFramebuffer,
            framebuffer: 0xffff_ffff,
        }
    );
    assert_eq!(commands[7], GlCommand::StencilMask { mask: 0xffff_ffff });
}

#[test]
fn clear_reaches_everything() {
    let commands = clear_commands(9);
    let at_clear = run(some_state(), &commands[..9]);
    assert_eq!(commands[9], GlCommand::ClearAllBuffers);
    assert_eq!(
        at_clear,
        GlState {
            draw_framebuffer: 9,
            read_framebuffer: 9,
            clear_color: BLACK,
            clear_depth: ONE,
            clear_stencil: 0,
            red_mask: 1,
            green_mask: 1,
            blue_mask: 1,
            alpha_mask: 1,
            depth_mask: 1,
            stencil_mask: -1,
            scissor_test: false,
            rasterizer_discard: false,
        }
    );
}

#[test]
fn restore_gives_the_state_back() {
    let state = GlState { blue_mask: 1, ..some_state() };
    let cleared = run(state, &clear_commands(9));
    assert_ne!(cleared, state);
    assert_eq!(run(cleared, &restore_commands(&state)), state);
}
