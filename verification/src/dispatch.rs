//! Input dispatch.
//!
//! One place routes every decoded wire message: motion samples go through the
//! forecast engine, wheel deltas through the sub-pixel accumulator, edge
//! jumps through the geometry and hysteresis state, and the discrete events
//! (buttons, keys, clipboard) become OS commands directly.  The shell owns
//! the OS input capability and performs the returned commands in order; a
//! malformed or unknown message changes nothing and commands nothing.

use vstd::prelude::*;
use crate::codec;
use crate::codec::{EventModel, InputEvent};
use crate::edge::{EdgeTracker, WindowGeometry, clamp_unit_micro, spec_height_fraction};
use crate::edge;
use crate::motion::{
    MotionEngine, MAX_MOTION_DELTA, TIME_BOUND, step_model, step_sleep, step_too_fast_notice,
    wf_model,
};
use crate::wheel::{WheelAccumulator, div_toward_zero, wheel_scaled, SUBPIXEL_SCALE};

verus! {

/// Pointer buttons, from the W3C button codes.
#[derive(Clone, Copy, PartialEq, Eq, Structural, Debug)]
pub enum ButtonKind {
    Left,
    Middle,
    Right,
    Forward,
    Back,
}

/// The button a wire code stands for, if any.
pub open spec fn spec_button_kind(code: int) -> Option<ButtonKind> {
    if code == 0 {
        Some(ButtonKind::Left)
    } else if code == 1 {
        Some(ButtonKind::Middle)
    } else if code == 2 {
        Some(ButtonKind::Right)
    } else if code == 3 {
        Some(ButtonKind::Forward)
    } else if code == 4 {
        Some(ButtonKind::Back)
    } else {
        None
    }
}

/// One call into the OS input capability.
#[derive(PartialEq, Eq, Debug)]
pub enum DeviceCommand {
    /// Move the pointer relatively; when `report_position` is set the shell
    /// reads the clamped position back and hands it to `report_position`.
    MoveRelative { dx: i32, dy: i32, report_position: bool },
    /// Warp the pointer to an absolute position.
    MoveAbsolute { x: i64, y: i64 },
    ButtonDown { button: ButtonKind },
    ButtonUp { button: ButtonKind },
    /// Scroll by whole pixels.
    Scroll { dx_pixels: i64, dy_pixels: i64 },
    /// Press the key with this physical code.
    KeyDown { code: Vec<u8> },
    /// Release the key with this physical code.
    KeyUp { code: Vec<u8> },
    WriteClipboard { data: Vec<u8> },
    /// Give the OS time to catch up.
    Pause { millis: u64 },
    /// Discover the screen bounds with two oversized moves, record them with
    /// `update_window_size`, then finish the jump via `leftjump_warp`.
    ProbeGeometry { height_micro: i64 },
}

/// Model of a command.
pub ghost enum CommandModel {
    MoveRelative { dx: int, dy: int, report_position: bool },
    MoveAbsolute { x: int, y: int },
    ButtonDown { button: ButtonKind },
    ButtonUp { button: ButtonKind },
    Scroll { dx_pixels: int, dy_pixels: int },
    KeyDown { code: Seq<u8> },
    KeyUp { code: Seq<u8> },
    WriteClipboard { data: Seq<u8> },
    Pause { millis: int },
    ProbeGeometry { height_micro: int },
}

impl View for DeviceCommand {
    type V = CommandModel;

    open spec fn view(&self) -> CommandModel {
        match self {
            DeviceCommand::MoveRelative { dx, dy, report_position } => CommandModel::MoveRelative {
                dx: *dx as int,
                dy: *dy as int,
                report_position: *report_position,
            },
            DeviceCommand::MoveAbsolute { x, y } => CommandModel::MoveAbsolute {
                x: *x as int,
                y: *y as int,
            },
            DeviceCommand::ButtonDown { button } => CommandModel::ButtonDown { button: *button },
            DeviceCommand::ButtonUp { button } => CommandModel::ButtonUp { button: *button },
            DeviceCommand::Scroll { dx_pixels, dy_pixels } => CommandModel::Scroll {
                dx_pixels: *dx_pixels as int,
                dy_pixels: *dy_pixels as int,
            },
            DeviceCommand::KeyDown { code } => CommandModel::KeyDown { code: code@ },
            DeviceCommand::KeyUp { code } => CommandModel::KeyUp { code: code@ },
            DeviceCommand::WriteClipboard { data } => CommandModel::WriteClipboard { data: data@ },
            DeviceCommand::Pause { millis } => CommandModel::Pause { millis: *millis as int },
            DeviceCommand::ProbeGeometry { height_micro } => CommandModel::ProbeGeometry {
                height_micro: *height_micro as int,
            },
        }
    }
}

impl DeepView for DeviceCommand {
    type V = CommandModel;

    open spec fn deep_view(&self) -> CommandModel {
        self.view()
    }
}

/// The bytes of the `AltRight` physical code.
pub open spec fn code_alt_right() -> Seq<u8> {
    seq![0x41u8, 0x6cu8, 0x74u8, 0x52u8, 0x69u8, 0x67u8, 0x68u8, 0x74u8]
}

/// The bytes of the `ControlLeft` physical code.
pub open spec fn code_control_left() -> Seq<u8> {
    seq![0x43u8, 0x6fu8, 0x6eu8, 0x74u8, 0x72u8, 0x6fu8, 0x6cu8, 0x4cu8, 0x65u8, 0x66u8, 0x74u8]
}

/// The bytes of the `KeyV` physical code.
pub open spec fn code_key_v() -> Seq<u8> {
    seq![0x4bu8, 0x65u8, 0x79u8, 0x56u8]
}

/// Milliseconds the paste chord waits between key presses.
pub const PASTE_PAUSE_MILLIS: u64 = 20;

/// Nanoseconds granted to the controller before the clipboard is read back.
pub const COPY_DELAY_NANOS: u128 = 50_000_000;

/// The commands of the stateless events: buttons, keys and clipboard.
/// Pressing the right Alt first releases the left Control that some
/// platforms inject alongside it, so that combining characters work; the
/// paste event writes the clipboard and presses the paste chord.
pub open spec fn spec_discrete_commands(e: EventModel) -> Seq<CommandModel> {
    match e {
        EventModel::MouseDown { button } => match spec_button_kind(button) {
            Some(k) => seq![CommandModel::ButtonDown { button: k }],
            None => Seq::empty(),
        },
        EventModel::MouseUp { button } => match spec_button_kind(button) {
            Some(k) => seq![CommandModel::ButtonUp { button: k }],
            None => Seq::empty(),
        },
        EventModel::KeyDown { code, key } => {
            if code == code_alt_right() {
                seq![
                    CommandModel::KeyUp { code: code_control_left() },
                    CommandModel::KeyDown { code },
                ]
            } else {
                seq![CommandModel::KeyDown { code }]
            }
        },
        EventModel::KeyUp { code, key } => seq![CommandModel::KeyUp { code }],
        EventModel::Paste { data } => seq![
            CommandModel::WriteClipboard { data },
            CommandModel::KeyDown { code: code_control_left() },
            CommandModel::Pause { millis: PASTE_PAUSE_MILLIS as int },
            CommandModel::KeyDown { code: code_key_v() },
            CommandModel::Pause { millis: PASTE_PAUSE_MILLIS as int },
        ],
        _ => Seq::empty(),
    }
}

/// What one wire message asks the shell to do, in order: the immediate
/// commands, then after `sleep_nanos` the forecast move (skipped when zero)
/// and, for a copy or cut, the clipboard read and reply.
pub struct MessageOutcome {
    pub commands: Vec<DeviceCommand>,
    pub sleep_nanos: Option<u128>,
    pub forecast_dx: i32,
    pub forecast_dy: i32,
    /// Send the throttle notice back over the data channel.
    pub notice_toofast: bool,
    /// After the sleep, read the clipboard and reply with its contents.
    pub clipboard_reply: bool,
}

/// Append one command, tracking the model sequence.
fn push_command(commands: &mut Vec<DeviceCommand>, c: DeviceCommand)
    ensures
        final(commands).deep_view() == old(commands).deep_view() + seq![c@],
{
    let ghost cv = c@;
    commands.push(c);
    proof {
        assert forall|i: int|
            0 <= i < commands@.len() implies #[trigger] commands.deep_view()[i] == (old(
            commands,
        ).deep_view() + seq![cv])[i] by {
            if i < old(commands)@.len() {
                assert(commands@[i] == old(commands)@[i]);
            } else {
                assert(commands@[i] == c);
            }
        }
        assert(commands.deep_view() =~= old(commands).deep_view() + seq![cv]);
    }
}

/// The per-session input state: motion pacing, wheel remainders, edge
/// hysteresis and the lazily discovered screen geometry.
pub struct DeviceState {
    pub motion: MotionEngine,
    pub wheel: WheelAccumulator,
    pub edge: EdgeTracker,
    pub geometry: WindowGeometry,
}

impl DeviceState {
    pub open spec fn wf(&self) -> bool {
        &&& wf_model(self.motion@)
        &&& self.wheel.wf()
        &&& (self.geometry.width matches Some(w) ==> w >= 0)
        &&& (self.geometry.height matches Some(h) ==> h >= 1)
    }

    pub fn new() -> (r: Self)
        ensures
            r.wf(),
            r.motion@ == crate::motion::fresh_model(),
            r.wheel.rem_x == 0 && r.wheel.rem_y == 0,
            !r.edge.check_sides && !r.edge.left_cleared,
            r.geometry.width is None && r.geometry.height is None,
    {
        DeviceState {
            motion: MotionEngine::new(),
            wheel: WheelAccumulator::new(),
            edge: EdgeTracker::new(),
            geometry: WindowGeometry::new(),
        }
    }

    /// Record the probed screen bounds.
    pub fn update_window_size(&mut self, x: i32, y: i32)
        requires
            x >= 0,
            y >= 1,
        ensures
            final(self).geometry.width == Some(x),
            final(self).geometry.height == Some(y),
            final(self).motion == old(self).motion,
            final(self).wheel == old(self).wheel,
            final(self).edge == old(self).edge,
            old(self).wf() ==> final(self).wf(),
    {
        self.geometry.update_window_size(x, y);
    }

    /// Where a pending left-edge jump warps the cursor, once the geometry is
    /// known.
    pub fn leftjump_warp(&self, height_micro: i64) -> (r: (i64, i64))
        requires
            self.wf(),
            self.geometry.width is Some,
            self.geometry.height is Some,
        ensures
            r.0 == self.geometry.width.unwrap() - edge::JUMP_MARGIN,
            r.1 == self.geometry.height.unwrap() * clamp_unit_micro(height_micro as int)
                / 1_000_000,
    {
        let w = match self.geometry.width {
            Some(w) => w,
            None => 0,
        };
        let h = match self.geometry.height {
            Some(h) => h,
            None => 0,
        };
        edge::leftjump_target(w, h, height_micro)
    }

    /// Hand back the clamped position after a reported move: the edge check
    /// may answer with a right-edge crossing reply for the data channel.
    pub fn report_position(&mut self, pos_x: i32, pos_y: i32) -> (r: Option<Vec<u8>>)
        requires
            old(self).wf(),
        ensures
            final(self).wf(),
            final(self).motion == old(self).motion,
            final(self).wheel == old(self).wheel,
            final(self).geometry == old(self).geometry,
            final(self).edge.check_sides == old(self).edge.check_sides,
            old(self).geometry.width is None || old(self).geometry.height is None ==> r is None
                && final(self).edge == old(self).edge,
            old(self).geometry.width matches Some(w) ==> old(self).geometry.height matches Some(
                h,
            ) ==> {
                &&& (r is Some <==> old(self).edge.check_sides && pos_x > w
                    - edge::RIGHT_EDGE_MARGIN && old(self).edge.left_cleared)
                &&& (r matches Some(reply) ==> reply@ == codec::spec_mouseright_reply(
                    spec_height_fraction(pos_y as int, h as int),
                ))
                &&& final(self).edge.left_cleared == (old(self).edge.left_cleared || (old(
                    self,
                ).edge.check_sides && pos_x <= w - edge::RIGHT_EDGE_MARGIN && pos_x
                    > edge::CENTER_MARGIN))
            },
    {
        let w = match self.geometry.width {
            Some(w) => w,
            None => {
                return None;
            },
        };
        let h = match self.geometry.height {
            Some(h) => h,
            None => {
                return None;
            },
        };
        match self.edge.observe_position(pos_x, pos_y, w, h) {
            Some(frac) => Some(codec::encode_mouseright(frac)),
            None => None,
        }
    }

    /// Route one wire message.  An unknown or malformed message, or a motion
    /// delta beyond the accepted magnitude, changes nothing and commands
    /// nothing.
    pub fn on_wire_message(&mut self, msg: &[u8], now: u128) -> (out: MessageOutcome)
        requires
            old(self).wf(),
            now < TIME_BOUND,
            old(self).motion@.last_sample matches Some(t) ==> t <= now,
        ensures
            final(self).wf(),
            final(self).geometry == old(self).geometry,
            spec_message_step(*old(self), msg@, now as int).0 == device_model(*final(self)),
            spec_message_step(*old(self), msg@, now as int).1 =~= (MessageModel {
                commands: out.commands.deep_view(),
                sleep_nanos: match out.sleep_nanos {
                    Some(s) => Some(s as int),
                    None => None,
                },
                forecast_dx: out.forecast_dx as int,
                forecast_dy: out.forecast_dy as int,
                notice_toofast: out.notice_toofast,
                clipboard_reply: out.clipboard_reply,
            }),
    {
        let mut commands: Vec<DeviceCommand> = Vec::new();
        let mut sleep_nanos: Option<u128> = None;
        let mut forecast_dx: i32 = 0;
        let mut forecast_dy: i32 = 0;
        let mut notice_toofast: bool = false;
        let mut clipboard_reply: bool = false;
        proof {
            assert(commands.deep_view() =~= Seq::<CommandModel>::empty());
        }
        match codec::decode(msg) {
            None => {
            },
            Some(e) => {
                match e {
                    InputEvent::MouseMove { dx, dy } => {
                        if -MAX_MOTION_DELTA <= dx && dx <= MAX_MOTION_DELTA && -MAX_MOTION_DELTA
                            <= dy && dy <= MAX_MOTION_DELTA {
                            let step = self.motion.on_mousemove(dx, dy, now);
                            push_command(
                                &mut commands,
                                DeviceCommand::MoveRelative {
                                    dx: step.immediate_x,
                                    dy: step.immediate_y,
                                    report_position: self.edge.check_sides,
                                },
                            );
                            sleep_nanos = step.sleep_nanos;
                            forecast_dx = step.forecast_x;
                            forecast_dy = step.forecast_y;
                            notice_toofast = step.too_fast_notice;
                        }
                    },
                    InputEvent::MouseIdle => {
                        self.motion.handle_mouseidle();
                    },
                    InputEvent::MouseDown { button } => {
                        match button_kind(button) {
                            Some(k) => {
                                push_command(&mut commands, DeviceCommand::ButtonDown {
                                    button: k,
                                });
                            },
                            None => {
                            },
                        }
                    },
                    InputEvent::MouseUp { button } => {
                        match button_kind(button) {
                            Some(k) => {
                                push_command(&mut commands, DeviceCommand::ButtonUp { button: k });
                            },
                            None => {
                            },
                        }
                    },
                    InputEvent::Wheel { delta_mode, dx_micro, dy_micro } => {
                        proof {
                            codec::lemma_wheel_fields_bounded(msg@);
                        }
                        let (sx, sy) = self.wheel.feed(delta_mode, dx_micro, dy_micro);
                        if sx != 0 || sy != 0 {
                            push_command(&mut commands, DeviceCommand::Scroll {
                                dx_pixels: sx,
                                dy_pixels: sy,
                            });
                        }
                    },
                    InputEvent::KeyDown { code, key: _ } => {
                        let alt_right: [u8; 8] = [0x41, 0x6c, 0x74, 0x52, 0x69, 0x67, 0x68, 0x74];
                        proof {
                            assert(alt_right@ =~= code_alt_right());
                        }
                        if crate::codec::bytes_eq(code.as_slice(), alt_right.as_slice()) {
                            push_command(&mut commands, DeviceCommand::KeyUp {
                                code: control_left_code(),
                            });
                        }
                        push_command(&mut commands, DeviceCommand::KeyDown { code });
                    },
                    InputEvent::KeyUp { code, key: _ } => {
                        push_command(&mut commands, DeviceCommand::KeyUp { code });
                    },
                    InputEvent::CopyRequest => {
                        sleep_nanos = Some(COPY_DELAY_NANOS);
                        clipboard_reply = true;
                    },
                    InputEvent::CutRequest => {
                        sleep_nanos = Some(COPY_DELAY_NANOS);
                        clipboard_reply = true;
                    },
                    InputEvent::Paste { data } => {
                        push_command(&mut commands, DeviceCommand::WriteClipboard { data });
                        push_command(&mut commands, DeviceCommand::KeyDown {
                            code: control_left_code(),
                        });
                        push_command(&mut commands, DeviceCommand::Pause {
                            millis: PASTE_PAUSE_MILLIS,
                        });
                        push_command(&mut commands, DeviceCommand::KeyDown { code: key_v_code() });
                        push_command(&mut commands, DeviceCommand::Pause {
                            millis: PASTE_PAUSE_MILLIS,
                        });
                    },
                    InputEvent::LeftJump { height_micro } => {
                        self.edge.arm();
                        if self.geometry.is_known() {
                            let target = self.leftjump_warp(height_micro);
                            push_command(&mut commands, DeviceCommand::MoveAbsolute {
                                x: target.0,
                                y: target.1,
                            });
                        } else {
                            push_command(&mut commands, DeviceCommand::ProbeGeometry {
                                height_micro,
                            });
                        }
                    },
                    InputEvent::MouseHide => {
                        self.edge.disarm();
                        let w = match self.geometry.width {
                            Some(w) => w,
                            None => 0,
                        };
                        let h = match self.geometry.height {
                            Some(h) => h,
                            None => 0,
                        };
                        let target = edge::mousehide_target(w, h);
                        push_command(&mut commands, DeviceCommand::MoveAbsolute {
                            x: target.0,
                            y: target.1,
                        });
                    },
                }
            },
        }
        MessageOutcome {
            commands,
            sleep_nanos,
            forecast_dx,
            forecast_dy,
            notice_toofast,
            clipboard_reply,
        }
    }
}

/// The button a wire code stands for.
fn button_kind(code: i32) -> (r: Option<ButtonKind>)
    ensures
        r == spec_button_kind(code as int),
{
    if code == 0 {
        Some(ButtonKind::Left)
    } else if code == 1 {
        Some(ButtonKind::Middle)
    } else if code == 2 {
        Some(ButtonKind::Right)
    } else if code == 3 {
        Some(ButtonKind::Forward)
    } else if code == 4 {
        Some(ButtonKind::Back)
    } else {
        None
    }
}

/// The `ControlLeft` physical code.
fn control_left_code() -> (r: Vec<u8>)
    ensures
        r@ == code_control_left(),
{
    let a: [u8; 11] = [0x43, 0x6f, 0x6e, 0x74, 0x72, 0x6f, 0x6c, 0x4c, 0x65, 0x66, 0x74];
    let r = vstd::slice::slice_to_vec(a.as_slice());
    proof {
        assert(r@ =~= code_control_left());
    }
    r
}

/// The `KeyV` physical code.
fn key_v_code() -> (r: Vec<u8>)
    ensures
        r@ == code_key_v(),
{
    let a: [u8; 4] = [0x4b, 0x65, 0x79, 0x56];
    let r = vstd::slice::slice_to_vec(a.as_slice());
    proof {
        assert(r@ =~= code_key_v());
    }
    r
}

/// Model of the input state.
pub ghost struct DeviceModel {
    pub motion: crate::motion::MotionModel,
    pub rem_x: int,
    pub rem_y: int,
    pub check_sides: bool,
    pub left_cleared: bool,
}

/// The model a device state realizes; the geometry is carried unchanged by
/// message routing and so stays outside the model.
pub open spec fn device_model(d: DeviceState) -> DeviceModel {
    DeviceModel {
        motion: d.motion@,
        rem_x: d.wheel.rem_x as int,
        rem_y: d.wheel.rem_y as int,
        check_sides: d.edge.check_sides,
        left_cleared: d.edge.left_cleared,
    }
}

/// Model of a message outcome.
#[verifier::ext_equal]
pub ghost struct MessageModel {
    pub commands: Seq<CommandModel>,
    pub sleep_nanos: Option<int>,
    pub forecast_dx: int,
    pub forecast_dy: int,
    pub notice_toofast: bool,
    pub clipboard_reply: bool,
}

/// An outcome that commands nothing.
pub open spec fn quiet_outcome() -> MessageModel {
    MessageModel {
        commands: Seq::empty(),
        sleep_nanos: None,
        forecast_dx: 0,
        forecast_dy: 0,
        notice_toofast: false,
        clipboard_reply: false,
    }
}

/// The whole routing table: what one wire message does to the input state
/// and what it asks of the shell.
pub open spec fn spec_message_step(d: DeviceState, msg: Seq<u8>, now: int) -> (
    DeviceModel,
    MessageModel,
) {
    let dm = device_model(d);
    match codec::spec_decode(msg) {
        None => (dm, quiet_outcome()),
        Some(e) => match e {
            EventModel::MouseMove { dx, dy } => {
                if -(MAX_MOTION_DELTA as int) <= dx <= MAX_MOTION_DELTA as int && -(
                MAX_MOTION_DELTA as int) <= dy <= MAX_MOTION_DELTA as int {
                    let m1 = step_model(dm.motion, dx, dy, now);
                    (
                        DeviceModel { motion: m1, ..dm },
                        MessageModel {
                            commands: seq![
                                CommandModel::MoveRelative {
                                    dx: dx - dm.motion.offset_x,
                                    dy: dy - dm.motion.offset_y,
                                    report_position: dm.check_sides,
                                },
                            ],
                            sleep_nanos: step_sleep(dm.motion, now),
                            forecast_dx: m1.offset_x,
                            forecast_dy: m1.offset_y,
                            notice_toofast: step_too_fast_notice(dm.motion, now),
                            clipboard_reply: false,
                        },
                    )
                } else {
                    (dm, quiet_outcome())
                }
            },
            EventModel::MouseIdle => (
                DeviceModel { motion: crate::motion::idle_model(dm.motion), ..dm },
                quiet_outcome(),
            ),
            EventModel::Wheel { delta_mode, dx_micro, dy_micro } => {
                let sx = div_toward_zero(
                    dm.rem_x + wheel_scaled(delta_mode, dx_micro),
                    SUBPIXEL_SCALE as int,
                );
                let sy = div_toward_zero(
                    dm.rem_y + wheel_scaled(delta_mode, dy_micro),
                    SUBPIXEL_SCALE as int,
                );
                (
                    DeviceModel {
                        rem_x: dm.rem_x + wheel_scaled(delta_mode, dx_micro) - sx * SUBPIXEL_SCALE,
                        rem_y: dm.rem_y + wheel_scaled(delta_mode, dy_micro) - sy * SUBPIXEL_SCALE,
                        ..dm
                    },
                    MessageModel {
                        commands: if sx != 0 || sy != 0 {
                            seq![CommandModel::Scroll { dx_pixels: sx, dy_pixels: sy }]
                        } else {
                            Seq::empty()
                        },
                        ..quiet_outcome()
                    },
                )
            },
            EventModel::CopyRequest => (
                dm,
                MessageModel {
                    sleep_nanos: Some(COPY_DELAY_NANOS as int),
                    clipboard_reply: true,
                    ..quiet_outcome()
                },
            ),
            EventModel::CutRequest => (
                dm,
                MessageModel {
                    sleep_nanos: Some(COPY_DELAY_NANOS as int),
                    clipboard_reply: true,
                    ..quiet_outcome()
                },
            ),
            EventModel::LeftJump { height_micro } => {
                let d1 = DeviceModel { check_sides: true, left_cleared: false, ..dm };
                if d.geometry.width is Some && d.geometry.height is Some {
                    (
                        d1,
                        MessageModel {
                            commands: seq![
                                CommandModel::MoveAbsolute {
                                    x: d.geometry.width.unwrap() - edge::JUMP_MARGIN,
                                    y: d.geometry.height.unwrap() * clamp_unit_micro(height_micro)
                                        / 1_000_000,
                                },
                            ],
                            ..quiet_outcome()
                        },
                    )
                } else {
                    (
                        d1,
                        MessageModel {
                            commands: seq![CommandModel::ProbeGeometry { height_micro }],
                            ..quiet_outcome()
                        },
                    )
                }
            },
            EventModel::MouseHide => {
                let w = match d.geometry.width {
                    Some(w) => w as int,
                    None => 0,
                };
                let h = match d.geometry.height {
                    Some(h) => h as int,
                    None => 0,
                };
                (
                    DeviceModel { check_sides: false, left_cleared: false, ..dm },
                    MessageModel {
                        commands: seq![
                            CommandModel::MoveAbsolute { x: w, y: h * 97 / 100 },
                        ],
                        ..quiet_outcome()
                    },
                )
            },
            _ => (
                dm,
                MessageModel { commands: spec_discrete_commands(e), ..quiet_outcome() },
            ),
        },
    }
}

} // verus!
