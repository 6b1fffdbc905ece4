//! The GL commands that clear a surface and put the GL state back.
//!
//! Floating-point state is carried as the bits of an `f32`: it is saved and restored, never
//! computed with.

use vstd::prelude::*;

verus! {

/// A colour, each component as the bits of an `f32`.
#[derive(Clone, Copy, Debug, PartialEq, Eq, Structural)]
pub struct Color {
    pub red: u32,
    pub green: u32,
    pub blue: u32,
    pub alpha: u32,
}

/// The bits of the `f32` one.
pub const ONE: u32 = 0x3f80_0000;

/// The stencil mask that lets every bit through.
pub const FULL_STENCIL_MASK: u32 = 0xffff_ffff;

/// The part of the GL state that clearing a surface overwrites, as the GL getters report it:
/// integers as `GLint`, booleans as `GLboolean`.
#[derive(Clone, Copy, Debug, PartialEq, Eq, Structural)]
pub struct GlState {
    pub draw_framebuffer: i32,
    pub read_framebuffer: i32,
    pub clear_color: Color,
    pub clear_depth: u32,
    pub clear_stencil: i32,
    pub red_mask: u8,
    pub green_mask: u8,
    pub blue_mask: u8,
    pub alpha_mask: u8,
    pub depth_mask: u8,
    pub stencil_mask: i32,
    pub scissor_test: bool,
    pub rasterizer_discard: bool,
}

/// The binding points of a framebuffer object.
#[derive(Clone, Copy, Debug, PartialEq, Eq, Structural)]
pub enum FramebufferTarget {
    /// Both the draw and the read binding point.
    Framebuffer,
    DrawFramebuffer,
    ReadFramebuffer,
}

/// The GL capabilities that clearing a surface switches off.
#[derive(Clone, Copy, Debug, PartialEq, Eq, Structural)]
pub enum Capability {
    ScissorTest,
    RasterizerDiscard,
}

/// A GL command.
#[derive(Clone, Copy, Debug, PartialEq, Eq, Structural)]
pub enum GlCommand {
    BindFramebuffer { target: FramebufferTarget, framebuffer: u32 },
    ClearColor { color: Color },
    ClearDepth { depth: u32 },
    ClearStencil { stencil: i32 },
    Enable { capability: Capability },
    Disable { capability: Capability },
    ColorMask { red: bool, green: bool, blue: bool, alpha: bool },
    DepthMask { write: bool },
    StencilMask { mask: u32 },
    /// Clear the colour, depth and stencil buffers of the draw framebuffer.
    ClearAllBuffers,
}

/// The commands that clear `framebuffer` to transparent, with the greatest depth and a zero
/// stencil.
pub open spec fn clear_commands_spec(framebuffer: u32) -> Seq<GlCommand> {
    seq![
        GlCommand::BindFramebuffer { target: FramebufferTarget::Framebuffer, framebuffer },
        GlCommand::ClearColor { color: Color { red: 0, green: 0, blue: 0, alpha: 0 } },
        GlCommand::ClearDepth { depth: ONE },
        GlCommand::ClearStencil { stencil: 0 },
        GlCommand::Disable { capability: Capability::ScissorTest },
        GlCommand::Disable { capability: Capability::RasterizerDiscard },
        GlCommand::DepthMask { write: true },
        GlCommand::StencilMask { mask: FULL_STENCIL_MASK },
        GlCommand::ColorMask { red: true, green: true, blue: true, alpha: true },
        GlCommand::ClearAllBuffers,
    ]
}

/// The commands that put back what [`GlState`] holds, the two capabilities left aside.
pub open spec fn restore_values_spec(state: GlState) -> Seq<GlCommand> {
    seq![
        GlCommand::BindFramebuffer {
            target: FramebufferTarget::DrawFramebuffer,
            framebuffer: state.draw_framebuffer as u32,
        },
        GlCommand::BindFramebuffer {
            target: FramebufferTarget::ReadFramebuffer,
            framebuffer: state.read_framebuffer as u32,
        },
        GlCommand::ClearColor { color: state.clear_color },
        GlCommand::ColorMask {
            red: state.red_mask != 0,
            green: state.green_mask != 0,
            blue: state.blue_mask != 0,
            alpha: state.alpha_mask != 0,
        },
        GlCommand::ClearDepth { depth: state.clear_depth },
        GlCommand::ClearStencil { stencil: state.clear_stencil },
        GlCommand::DepthMask { write: state.depth_mask != 0 },
        GlCommand::StencilMask { mask: state.stencil_mask as u32 },
    ]
}

/// The command that switches `capability` on, if it was on.
pub open spec fn reenable_spec(capability: Capability, was_on: bool) -> Seq<GlCommand> {
    if was_on {
        seq![GlCommand::Enable { capability }]
    } else {
        seq![]
    }
}

/// The commands that put `state` back after [`clear_commands_spec`].
pub open spec fn restore_commands_spec(state: GlState) -> Seq<GlCommand> {
    restore_values_spec(state)
        + reenable_spec(Capability::ScissorTest, state.scissor_test)
        + reenable_spec(Capability::RasterizerDiscard, state.rasterizer_discard)
}

/// The commands that clear `framebuffer`.
pub fn clear_commands(framebuffer: u32) -> (commands: Vec<GlCommand>)
    ensures
        commands@ == clear_commands_spec(framebuffer),
{
    vec![
        GlCommand::BindFramebuffer { target: FramebufferTarget::Framebuffer, framebuffer },
        GlCommand::ClearColor { color: Color { red: 0, green: 0, blue: 0, alpha: 0 } },
        GlCommand::ClearDepth { depth: ONE },
        GlCommand::ClearStencil { stencil: 0 },
        GlCommand::Disable { capability: Capability::ScissorTest },
        GlCommand::Disable { capability: Capability::RasterizerDiscard },
        GlCommand::DepthMask { write: true },
        GlCommand::StencilMask { mask: FULL_STENCIL_MASK },
        GlCommand::ColorMask { red: true, green: true, blue: true, alpha: true },
        GlCommand::ClearAllBuffers,
    ]
}

/// The commands that put the saved `state` back after a clear.
pub fn restore_commands(state: &GlState) -> (commands: Vec<GlCommand>)
    ensures
        commands@ == restore_commands_spec(*state),
{
    let mut commands = vec![
        GlCommand::BindFramebuffer {
            target: FramebufferTarget::DrawFramebuffer,
            framebuffer: state.draw_framebuffer as u32,
        },
        GlCommand::BindFramebuffer {
            target: FramebufferTarget::ReadFramebuffer,
            framebuffer: state.read_framebuffer as u32,
        },
        GlCommand::ClearColor { color: state.clear_color },
        GlCommand::ColorMask {
            red: state.red_mask != 0,
            green: state.green_mask != 0,
            blue: state.blue_mask != 0,
            alpha: state.alpha_mask != 0,
        },
        GlCommand::ClearDepth { depth: state.clear_depth },
        GlCommand::ClearStencil { stencil: state.clear_stencil },
        GlCommand::DepthMask { write: state.depth_mask != 0 },
        GlCommand::StencilMask { mask: state.stencil_mask as u32 },
    ];
    if state.scissor_test {
        commands.push(GlCommand::Enable { capability: Capability::ScissorTest });
    }
    if state.rasterizer_discard {
        commands.push(GlCommand::Enable { capability: Capability::RasterizerDiscard });
    }
    commands
}

/// The GL state that the commands act on. The stencil mask has a front and a back face; the
/// getter reports the front one, and the command sets both.
pub ghost struct GlModel {
    pub draw_framebuffer: u32,
    pub read_framebuffer: u32,
    pub clear_color: Color,
    pub clear_depth: u32,
    pub clear_stencil: i32,
    pub red_mask: bool,
    pub green_mask: bool,
    pub blue_mask: bool,
    pub alpha_mask: bool,
    pub depth_mask: bool,
    pub front_stencil_mask: u32,
    pub back_stencil_mask: u32,
    pub scissor_test: bool,
    pub rasterizer_discard: bool,
}

impl GlModel {
    /// The state after one command.
    pub open spec fn apply(self, command: GlCommand) -> GlModel {
        match command {
            GlCommand::BindFramebuffer { target, framebuffer } => match target {
                FramebufferTarget::Framebuffer => GlModel {
                    draw_framebuffer: framebuffer,
                    read_framebuffer: framebuffer,
                    ..self
                },
                FramebufferTarget::DrawFramebuffer => GlModel {
                    draw_framebuffer: framebuffer,
                    ..self
                },
                FramebufferTarget::ReadFramebuffer => GlModel {
                    read_framebuffer: framebuffer,
                    ..self
                },
            },
            GlCommand::ClearColor { color } => GlModel { clear_color: color, ..self },
            GlCommand::ClearDepth { depth } => GlModel { clear_depth: depth, ..self },
            GlCommand::ClearStencil { stencil } => GlModel { clear_stencil: stencil, ..self },
            GlCommand::Enable { capability } => self.switched(capability, true),
            GlCommand::Disable { capability } => self.switched(capability, false),
            GlCommand::ColorMask { red, green, blue, alpha } => GlModel {
                red_mask: red,
                green_mask: green,
                blue_mask: blue,
                alpha_mask: alpha,
                ..self
            },
            GlCommand::DepthMask { write } => GlModel { depth_mask: write, ..self },
            GlCommand::StencilMask { mask } => GlModel {
                front_stencil_mask: mask,
                back_stencil_mask: mask,
                ..self
            },
            GlCommand::ClearAllBuffers => self,
        }
    }

    /// The state with one capability switched on or off.
    pub open spec fn switched(self, capability: Capability, on: bool) -> GlModel {
        match capability {
            Capability::ScissorTest => GlModel { scissor_test: on, ..self },
            Capability::RasterizerDiscard => GlModel { rasterizer_discard: on, ..self },
        }
    }

    /// The state after a sequence of commands.
    pub open spec fn run(self, commands: Seq<GlCommand>) -> GlModel
        decreases commands.len(),
    {
        if commands.len() == 0 {
            self
        } else {
            self.run(commands.drop_last()).apply(commands.last())
        }
    }

    /// Whether the getters report `state`.
    pub open spec fn reports(self, state: GlState) -> bool {
        &&& state.draw_framebuffer == self.draw_framebuffer as i32
        &&& state.read_framebuffer == self.read_framebuffer as i32
        &&& state.clear_color == self.clear_color
        &&& state.clear_depth == self.clear_depth
        &&& state.clear_stencil == self.clear_stencil
        &&& (state.red_mask != 0) == self.red_mask
        &&& (state.green_mask != 0) == self.green_mask
        &&& (state.blue_mask != 0) == self.blue_mask
        &&& (state.alpha_mask != 0) == self.alpha_mask
        &&& (state.depth_mask != 0) == self.depth_mask
        &&& state.stencil_mask == self.front_stencil_mask as i32
        &&& state.scissor_test == self.scissor_test
        &&& state.rasterizer_discard == self.rasterizer_discard
    }
}

/// Running a sequence that ends in `command`.
proof fn run_push(model: GlModel, commands: Seq<GlCommand>, command: GlCommand)
    ensures
        model.run(commands.push(command)) == model.run(commands).apply(command),
{
    assert(commands.push(command).drop_last() == commands);
}

/// The clear reaches all of `framebuffer`, whatever the GL state was: the clear command comes
/// last, and when it runs, the framebuffer is the one drawn to, the clear values are the ones
/// wanted, and neither a mask, nor the scissor test, nor the rasterizer holds anything back.
pub proof fn clear_reaches_the_whole_framebuffer(before: GlModel, framebuffer: u32)
    ensures
        ({
            let commands = clear_commands_spec(framebuffer);
            let at_clear = before.run(commands.drop_last());
            &&& commands.last() == GlCommand::ClearAllBuffers
            &&& at_clear.draw_framebuffer == framebuffer
            &&& at_clear.clear_color == (Color { red: 0, green: 0, blue: 0, alpha: 0 })
            &&& at_clear.clear_depth == ONE
            &&& at_clear.clear_stencil == 0
            &&& at_clear.red_mask && at_clear.green_mask && at_clear.blue_mask
            &&& at_clear.alpha_mask && at_clear.depth_mask
            &&& at_clear.front_stencil_mask == FULL_STENCIL_MASK
            &&& at_clear.back_stencil_mask == FULL_STENCIL_MASK
            &&& !at_clear.scissor_test && !at_clear.rasterizer_discard
        }),
{
    reveal_with_fuel(GlModel::run, 11);
    assert(clear_commands_spec(framebuffer).drop_last().len() == 9);
}

/// The list of commands that clears `framebuffer` clears once, at its end, and then all of
/// `framebuffer` and nothing else, whatever the GL state was: to transparent black, with a depth of
/// one and a stencil of zero.
pub proof fn clear_lists_clear_the_framebuffer(
    before: GlModel,
    framebuffer: u32,
    commands: Vec<GlCommand>,
)
    requires
        call_ensures(clear_commands, (framebuffer,), commands),
    ensures
        commands@.len() > 0,
        commands@.last() == GlCommand::ClearAllBuffers,
        forall|i: int|
            0 <= i < commands@.len() - 1 ==> #[trigger] commands@[i] != GlCommand::ClearAllBuffers,
        ({
            let at_clear = before.run(commands@.drop_last());
            &&& at_clear.draw_framebuffer == framebuffer
            &&& at_clear.clear_color == (Color { red: 0, green: 0, blue: 0, alpha: 0 })
            &&& at_clear.clear_depth == 0x3f80_0000u32
            &&& at_clear.clear_stencil == 0
            &&& at_clear.red_mask && at_clear.green_mask && at_clear.blue_mask
            &&& at_clear.alpha_mask && at_clear.depth_mask
            &&& at_clear.front_stencil_mask == 0xffff_ffffu32
            &&& at_clear.back_stencil_mask == 0xffff_ffffu32
            &&& !at_clear.scissor_test && !at_clear.rasterizer_discard
        }),
{
    clear_reaches_the_whole_framebuffer(before, framebuffer);
}

/// The list of commands that puts a saved GL state back, run after a clear, gives that state back
/// and clears nothing. Of the stencil mask the saved state has the front face alone, so the back
/// face gets that of the front.
pub proof fn restore_lists_undo_clear_lists(
    before: GlModel,
    state: GlState,
    framebuffer: u32,
    clearing: Vec<GlCommand>,
    restoring: Vec<GlCommand>,
)
    requires
        before.reports(state),
        call_ensures(clear_commands, (framebuffer,), clearing),
        call_ensures(restore_commands, (&state,), restoring),
    ensures
        before.run(clearing@).run(restoring@) == (GlModel {
            back_stencil_mask: before.front_stencil_mask,
            ..before
        }),
        forall|i: int|
            0 <= i < restoring@.len() ==> #[trigger] restoring@[i] != GlCommand::ClearAllBuffers,
{
    restoring_gives_back(before, state, framebuffer);
}

proof fn restoring_gives_back(before: GlModel, state: GlState, framebuffer: u32)
    requires
        before.reports(state),
    ensures
        before.run(clear_commands_spec(framebuffer)).run(restore_commands_spec(state)) == (
        GlModel { back_stencil_mask: before.front_stencil_mask, ..before }),
{
    let cleared = before.run(clear_commands_spec(framebuffer));
    assert(!cleared.scissor_test && !cleared.rasterizer_discard) by {
        reveal_with_fuel(GlModel::run, 11);
    }
    let values = cleared.run(restore_values_spec(state));
    let draw = before.draw_framebuffer;
    let read = before.read_framebuffer;
    let mask = before.front_stencil_mask;
    assert((draw as i32) as u32 == draw) by (bit_vector);
    assert((read as i32) as u32 == read) by (bit_vector);
    assert((mask as i32) as u32 == mask) by (bit_vector);
    assert(values == GlModel {
        back_stencil_mask: before.front_stencil_mask,
        scissor_test: false,
        rasterizer_discard: false,
        ..before
    }) by {
        reveal_with_fuel(GlModel::run, 9);
    }
    let scissor = restore_values_spec(state) + reenable_spec(
        Capability::ScissorTest,
        state.scissor_test,
    );
    if state.scissor_test {
        let enable = GlCommand::Enable { capability: Capability::ScissorTest };
        assert(scissor == restore_values_spec(state).push(enable));
        run_push(cleared, restore_values_spec(state), enable);
    } else {
        assert(scissor == restore_values_spec(state));
    }
    if state.rasterizer_discard {
        let enable = GlCommand::Enable { capability: Capability::RasterizerDiscard };
        assert(restore_commands_spec(state) == scissor.push(enable));
        run_push(cleared, scissor, enable);
    } else {
        assert(restore_commands_spec(state) == scissor);
    }
}

/// Clearing a surface leaves the GL state as it was: restoring the state that the getters
/// reported before the clear gives that state back. The two faces of the stencil mask must have
/// agreed, since one getter reports both.
pub proof fn restore_undoes_clear(before: GlModel, state: GlState, framebuffer: u32)
    requires
        before.reports(state),
        before.front_stencil_mask == before.back_stencil_mask,
    ensures
        before.run(clear_commands_spec(framebuffer)).run(restore_commands_spec(state)) == before,
{
    restoring_gives_back(before, state, framebuffer);
}

} // verus!
