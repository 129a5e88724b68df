//! The simulated device state and the command protocol that drives it.
//!
//! An outer controller sends commands over a channel the host owns; the
//! host hands each received command to this module. Between guest
//! invocations the device drains a deferred FIFO queue of commands, so
//! commands are applied in arrival order and none is dropped. Execution
//! starts when `StartExecution` arrives; a second `StartExecution` is a
//! recoverable error.

use vstd::prelude::*;

use crate::display::{Display, ProgramOptions, RenderMode};
use crate::text::FontType;

verus! {

/// The current stage of a competition.
#[derive(Clone, Copy, Debug, PartialEq, Eq, Structural)]
pub enum CompMode {
    Auto,
    Driver,
}

/// Field-control state bits for the competition.
#[derive(Clone, Copy, Debug, PartialEq, Eq, Structural)]
pub struct CompetitionMode {
    pub enabled: bool,
    pub connected: bool,
    pub mode: CompMode,
    pub is_competition: bool,
}

impl Default for CompetitionMode {
    /// Enabled, disconnected driver mode outside a competition.
    fn default() -> (r: CompetitionMode)
        ensures
            r == (CompetitionMode {
                enabled: true,
                connected: false,
                mode: CompMode::Driver,
                is_competition: false,
            }),
    {
        CompetitionMode { enabled: true, connected: false, mode: CompMode::Driver, is_competition: false }
    }
}

/// Status bit reported when field control disables the robot.
pub const COMPETITION_DISABLED: u32 = 1;

/// Status bit reported in autonomous mode.
pub const COMPETITION_AUTONOMOUS: u32 = 2;

/// Status bit reported when connected to competition control.
pub const COMPETITION_CONNECTED: u32 = 4;

/// Status bit reported when connected to field control.
pub const COMPETITION_SYSTEM: u32 = 8;

impl CompetitionMode {
    /// The packed status bit-field the SDK reports; no bits are set yet.
    pub fn status_bits(&self) -> (r: u32)
        ensures
            r == 0,
    {
        0
    }
}

/// The raw state of one controller.
#[derive(Clone, Copy, Debug, PartialEq, Eq, Structural, Default)]
pub struct ControllerState {
    pub axis1: i32,
    pub axis2: i32,
    pub axis3: i32,
    pub axis4: i32,
    pub button_l1: bool,
    pub button_l2: bool,
    pub button_r1: bool,
    pub button_r2: bool,
    pub button_up: bool,
    pub button_down: bool,
    pub button_left: bool,
    pub button_right: bool,
    pub button_x: bool,
    pub button_b: bool,
    pub button_y: bool,
    pub button_a: bool,
    pub button_sel: bool,
    pub battery_level: i32,
    pub button_all: bool,
    pub flags: i32,
    pub battery_capacity: i32,
}

/// How a controller slot is updated: a raw snapshot, or the identifier of
/// a physical gamepad that the host's input backend resolves.
#[derive(Debug)]
pub enum ControllerUpdate {
    Raw(ControllerState),
    Uuid(String),
}

/// The two controller snapshots (primary and partner).
#[derive(Clone, Copy, Debug, PartialEq, Eq, Structural, Default)]
pub struct Inputs {
    pub primary: Option<ControllerState>,
    pub partner: Option<ControllerState>,
}

impl Inputs {
    /// Both controllers start disconnected.
    pub fn new() -> (r: Inputs)
        ensures
            r.primary is None,
            r.partner is None,
    {
        Inputs { primary: None, partner: None }
    }

    /// The slot after one update: a raw snapshot overwrites it wholesale,
    /// an absent update disconnects it, and a gamepad identifier leaves it
    /// to the host's input backend (unchanged here).
    pub open spec fn slot_after(
        slot: Option<ControllerState>,
        update: Option<ControllerUpdate>,
    ) -> Option<ControllerState> {
        match update {
            None => None,
            Some(ControllerUpdate::Raw(st)) => Some(st),
            Some(ControllerUpdate::Uuid(_)) => slot,
        }
    }

    /// Overwrites controller slot `index` (0 primary, 1 partner) from an
    /// update.
    pub fn set_controller(&mut self, index: usize, update: Option<ControllerUpdate>) -> (r: Result<
        (),
        SdkError,
    >)
        ensures
            index == 0 ==> r is Ok && *final(self) == (Inputs {
                primary: Inputs::slot_after(old(self).primary, update),
                ..*old(self)
            }),
            index == 1 ==> r is Ok && *final(self) == (Inputs {
                partner: Inputs::slot_after(old(self).partner, update),
                ..*old(self)
            }),
            index >= 2 ==> r == Result::<(), SdkError>::Err(SdkError::InvalidController)
                && *final(self) == *old(self),
    {
        if index >= 2 {
            return Err(SdkError::InvalidController);
        }
        let new_slot = match update {
            None => None,
            Some(ControllerUpdate::Raw(st)) => Some(st),
            Some(ControllerUpdate::Uuid(_)) => {
                if index == 0 {
                    self.primary
                } else {
                    self.partner
                }
            },
        };
        if index == 0 {
            self.primary = new_slot;
        } else {
            self.partner = new_slot;
        }
        Ok(())
    }

    /// Reads controller slot `index` (0 primary, 1 partner).
    pub fn controller(&self, index: usize) -> (r: Option<ControllerState>)
        requires
            index < 2,
        ensures
            r == (if index == 0 {
                self.primary
            } else {
                self.partner
            }),
    {
        if index == 0 {
            self.primary
        } else {
            self.partner
        }
    }
}

/// A touch-screen event kind.
#[derive(Clone, Copy, Debug, PartialEq, Eq, Structural)]
pub enum TouchEvent {
    Released,
    Pressed,
    Held,
}

/// The mode of a radio configured for VEXlink.
#[derive(Clone, Copy, Debug, PartialEq, Eq, Structural)]
pub enum LinkMode {
    Manager,
    Worker,
}

/// The font family of protocol text metrics.
#[derive(Clone, Copy, Debug, PartialEq, Eq, Structural)]
pub enum FontFamily {
    UserMono,
    TimerMono,
}

/// An inbound command from the outer controller. Fractional quantities
/// (an ADI voltage, a battery capacity) arrive in fixed-point units.
#[derive(Debug)]
pub enum Command {
    Handshake { version: i32, extensions: Vec<String> },
    Touch { x: i32, y: i32, event: TouchEvent },
    ControllerUpdate(Option<ControllerUpdate>, Option<ControllerUpdate>),
    Usd { root: Option<String> },
    VexLinkOpened { port: u8, mode: LinkMode },
    VexLinkClosed { port: u8 },
    CompetitionMode { enabled: bool, connected: bool, mode: CompMode, is_competition: bool },
    ConfigureDevice { port: u8 },
    AdiInput { port: u8, voltage_uv: i64 },
    StartExecution,
    SetBatteryCapacity { capacity_mwh: u64 },
    SetTextMetrics {
        text: String,
        font_family: FontFamily,
        font_type: FontType,
        width: u64,
        height: u64,
    },
}

/// A recoverable failure while processing a command.
#[derive(Clone, Copy, Debug, PartialEq, Eq, Structural)]
pub enum SdkError {
    /// A handshake arrived after the session was already established.
    UnexpectedHandshake,
    /// `StartExecution` arrived while already executing.
    AlreadyExecuting,
    /// A command kind this simulator does not support.
    UnsupportedCommand,
    /// A controller index other than 0 or 1.
    InvalidController,
}

/// What one command does to the mutable device registers: the controller
/// snapshots, the competition mode, and the executing flag. Unsupported
/// command kinds fail and change nothing; a late handshake fails; a second
/// `StartExecution` fails.
pub open spec fn apply_command(
    inputs: Inputs,
    comp: CompetitionMode,
    executing: bool,
    cmd: Command,
) -> (Inputs, CompetitionMode, bool, Result<(), SdkError>) {
    match cmd {
        Command::Handshake { .. } => (inputs, comp, executing, Err(SdkError::UnexpectedHandshake)),
        Command::ControllerUpdate(primary, partner) => (
            Inputs {
                primary: Inputs::slot_after(inputs.primary, primary),
                partner: Inputs::slot_after(inputs.partner, partner),
            },
            comp,
            executing,
            Ok(()),
        ),
        Command::CompetitionMode { enabled, connected, mode, is_competition } => (
            inputs,
            CompetitionMode { enabled, connected, mode, is_competition },
            executing,
            Ok(()),
        ),
        Command::StartExecution => if executing {
            (inputs, comp, executing, Err(SdkError::AlreadyExecuting))
        } else {
            (inputs, comp, true, Ok(()))
        },
        Command::SetTextMetrics { .. } => (inputs, comp, executing, Ok(())),
        _ => (inputs, comp, executing, Err(SdkError::UnsupportedCommand)),
    }
}

/// Law: the executing flag only ever rises, it rises only on a
/// `StartExecution` command, and a second `StartExecution` fails without
/// changing anything.
pub proof fn lemma_execution_starts_once(
    inputs: Inputs,
    comp: CompetitionMode,
    executing: bool,
    cmd: Command,
)
    ensures
        executing ==> apply_command(inputs, comp, executing, cmd).2,
        apply_command(inputs, comp, executing, cmd).2 && !executing ==> cmd is StartExecution,
        executing && cmd is StartExecution ==> apply_command(inputs, comp, executing, cmd) == (
            inputs,
            comp,
            executing,
            Result::<(), SdkError>::Err(SdkError::AlreadyExecuting),
        ),
{
}

/// The effect of delivering a queue of commands in order, stopping after
/// the first failure: the final registers, how many commands were
/// consumed, and the first failure if any.
pub open spec fn drain_fold(
    inputs: Inputs,
    comp: CompetitionMode,
    executing: bool,
    cmds: Seq<Command>,
) -> (Inputs, CompetitionMode, bool, int, Result<(), SdkError>)
    decreases cmds.len(),
{
    if cmds.len() == 0 {
        (inputs, comp, executing, 0, Ok(()))
    } else {
        let (i1, c1, e1, r1) = apply_command(inputs, comp, executing, cmds[0]);
        if r1 is Err {
            (i1, c1, e1, 1, r1)
        } else {
            let (i2, c2, e2, n, r2) = drain_fold(i1, c1, e1, cmds.drop_first());
            (i2, c2, e2, n + 1, r2)
        }
    }
}

/// Law: a drain consumes a prefix of the queue, the whole queue when no
/// command fails.
pub proof fn lemma_drain_consumes_prefix(
    inputs: Inputs,
    comp: CompetitionMode,
    executing: bool,
    cmds: Seq<Command>,
)
    ensures
        0 <= drain_fold(inputs, comp, executing, cmds).3 <= cmds.len(),
        drain_fold(inputs, comp, executing, cmds).4 is Ok ==> drain_fold(
            inputs,
            comp,
            executing,
            cmds,
        ).3 == cmds.len(),
    decreases cmds.len(),
{
    if cmds.len() != 0 {
        let (i1, c1, e1, r1) = apply_command(inputs, comp, executing, cmds[0]);
        if !(r1 is Err) {
            lemma_drain_consumes_prefix(i1, c1, e1, cmds.drop_first());
        }
    }
}

/// Law: commands are delivered in arrival order, and none is dropped.
/// After a drain that consumed `n` commands, command `j` of the queue has
/// either been delivered as the `j`-th delivery of this drain (`j < n`) or
/// still sits in the queue at position `j - n`.
pub proof fn lemma_no_command_dropped(
    log: Seq<Command>,
    cmds: Seq<Command>,
    inputs: Inputs,
    comp: CompetitionMode,
    executing: bool,
    j: int,
)
    requires
        0 <= j < cmds.len(),
    ensures
        ({
            let n = drain_fold(inputs, comp, executing, cmds).3;
            j < n ==> (log + cmds.take(n))[log.len() + j] == cmds[j]
        }),
        ({
            let n = drain_fold(inputs, comp, executing, cmds).3;
            j >= n ==> cmds.skip(n)[j - n] == cmds[j]
        }),
{
    lemma_drain_consumes_prefix(inputs, comp, executing, cmds);
}

/// The simulated device: display, controller inputs, competition mode,
/// the executing flag, the deferred command queue, and a ghost log of
/// every command delivered to `execute_command`, in delivery order.
pub struct SdkState {
    pub display: Display,
    pub inputs: Inputs,
    pub competition_mode: CompetitionMode,
    pub is_executing: bool,
    pub command_process_queue: Vec<Command>,
    pub applied: Ghost<Seq<Command>>,
}

impl SdkState {
    pub open spec fn wf(self) -> bool {
        self.display.wf()
    }

    /// A fresh device: default display and competition mode, disconnected
    /// controllers, not yet executing, nothing queued.
    pub fn new(options: ProgramOptions) -> (s: SdkState)
        ensures
            s.wf(),
            s.display.foreground_color == options.default_fg_color,
            s.display.background_color == options.default_bg_color,
            s.display.render_mode == RenderMode::Immediate,
            s.inputs.primary is None && s.inputs.partner is None,
            s.competition_mode == (CompetitionMode {
                enabled: true,
                connected: false,
                mode: CompMode::Driver,
                is_competition: false,
            }),
            !s.is_executing,
            s.command_process_queue@.len() == 0,
            s.applied@ == Seq::<Command>::empty(),
    {
        SdkState {
            display: Display::new(options),
            inputs: Inputs::new(),
            competition_mode: CompetitionMode::default(),
            is_executing: false,
            command_process_queue: Vec::new(),
            applied: Ghost(Seq::empty()),
        }
    }

    /// Whether the simulator is in the execution phase.
    pub fn executing(&self) -> (r: bool)
        ensures
            r == self.is_executing,
    {
        self.is_executing
    }

    /// Processes one command: updates the device registers per
    /// `apply_command` and logs the delivery. The display and the queue
    /// are untouched.
    pub fn execute_command(&mut self, cmd: Command) -> (r: Result<(), SdkError>)
        requires
            old(self).wf(),
        ensures
            final(self).wf(),
            ({
                let (i1, c1, e1, r1) = apply_command(
                    old(self).inputs,
                    old(self).competition_mode,
                    old(self).is_executing,
                    cmd,
                );
                &&& final(self).inputs == i1
                &&& final(self).competition_mode == c1
                &&& final(self).is_executing == e1
                &&& r == r1
            }),
            final(self).display == old(self).display,
            final(self).command_process_queue == old(self).command_process_queue,
            final(self).applied@ == old(self).applied@.push(cmd),
    {
        proof {
            self.applied@ = self.applied@.push(cmd);
        }
        match cmd {
            Command::Handshake { .. } => Err(SdkError::UnexpectedHandshake),
            Command::ControllerUpdate(primary, partner) => {
                let _ = self.inputs.set_controller(0, primary);
                let _ = self.inputs.set_controller(1, partner);
                Ok(())
            },
            Command::CompetitionMode { enabled, connected, mode, is_competition } => {
                self.competition_mode = CompetitionMode { enabled, connected, mode, is_competition };
                Ok(())
            },
            Command::StartExecution => {
                if self.is_executing {
                    Err(SdkError::AlreadyExecuting)
                } else {
                    self.is_executing = true;
                    Ok(())
                }
            },
            Command::SetTextMetrics { .. } => Ok(()),
            _ => Err(SdkError::UnsupportedCommand),
        }
    }

    /// One step of a condition wait. The host receives a command and
    /// evaluates the caller's predicate on it; a matching command is
    /// executed at once (as in the receive loop, its failure does not
    /// stop the wait) and ends the wait, while a non-matching one is
    /// deferred for a later drain, so it is never dropped.
    pub fn wait_for_command_step(&mut self, cmd: Command, satisfies: bool) -> (done: bool)
        requires
            old(self).wf(),
        ensures
            final(self).wf(),
            done == satisfies,
            final(self).display == old(self).display,
            satisfies ==> ({
                let (i1, c1, e1, r1) = apply_command(
                    old(self).inputs,
                    old(self).competition_mode,
                    old(self).is_executing,
                    cmd,
                );
                &&& final(self).inputs == i1
                &&& final(self).competition_mode == c1
                &&& final(self).is_executing == e1
                &&& final(self).command_process_queue == old(self).command_process_queue
                &&& final(self).applied@ == old(self).applied@.push(cmd)
            }),
            !satisfies ==> ({
                &&& final(self).inputs == old(self).inputs
                &&& final(self).competition_mode == old(self).competition_mode
                &&& final(self).is_executing == old(self).is_executing
                &&& final(self).command_process_queue@ == old(
                    self,
                ).command_process_queue@.push(cmd)
                &&& final(self).applied == old(self).applied
            }),
    {
        if satisfies {
            let _ = self.execute_command(cmd);
            true
        } else {
            self.defer_command(cmd);
            false
        }
    }

    /// Defers a command for a later drain: it joins the back of the queue.
    pub fn defer_command(&mut self, cmd: Command)
        requires
            old(self).wf(),
        ensures
            final(self).wf(),
            final(self).command_process_queue@ == old(self).command_process_queue@.push(cmd),
            final(self).display == old(self).display,
            final(self).inputs == old(self).inputs,
            final(self).competition_mode == old(self).competition_mode,
            final(self).is_executing == old(self).is_executing,
            final(self).applied == old(self).applied,
    {
        self.command_process_queue.push(cmd);
    }

    /// Takes the oldest deferred command, if any.
    pub fn take_queued(&mut self) -> (r: Option<Command>)
        requires
            old(self).wf(),
        ensures
            final(self).wf(),
            old(self).command_process_queue@.len() == 0 ==> r is None && *final(self) == *old(self),
            old(self).command_process_queue@.len() != 0 ==> r == Some(
                old(self).command_process_queue@[0],
            ) && final(self).command_process_queue@ == old(self).command_process_queue@.drop_first(),
            final(self).display == old(self).display,
            final(self).inputs == old(self).inputs,
            final(self).competition_mode == old(self).competition_mode,
            final(self).is_executing == old(self).is_executing,
            final(self).applied == old(self).applied,
    {
        if self.command_process_queue.len() == 0 {
            None
        } else {
            let cmd = self.command_process_queue.remove(0);
            proof {
                assert(self.command_process_queue@ =~= old(
                    self,
                ).command_process_queue@.drop_first());
            }
            Some(cmd)
        }
    }

    /// Drains the deferred queue: delivers its commands to execution in
    /// queue order until the queue empties or a command fails; a failure
    /// leaves the commands after it queued.
    pub fn drain_queued(&mut self) -> (r: Result<(), SdkError>)
        requires
            old(self).wf(),
        ensures
            final(self).wf(),
            ({
                let (i1, c1, e1, n, r1) = drain_fold(
                    old(self).inputs,
                    old(self).competition_mode,
                    old(self).is_executing,
                    old(self).command_process_queue@,
                );
                &&& final(self).inputs == i1
                &&& final(self).competition_mode == c1
                &&& final(self).is_executing == e1
                &&& r == r1
                &&& final(self).command_process_queue@ == old(self).command_process_queue@.skip(n)
                &&& final(self).applied@ == old(self).applied@ + old(
                    self,
                ).command_process_queue@.take(n)
            }),
            final(self).display == old(self).display,
    {
        let ghost orig_queue = old(self).command_process_queue@;
        let ghost mut consumed: int = 0;
        loop
            invariant
                self.wf(),
                self.display == old(self).display,
                0 <= consumed <= orig_queue.len(),
                orig_queue == old(self).command_process_queue@,
                self.command_process_queue@ == orig_queue.skip(consumed),
                self.applied@ == old(self).applied@ + orig_queue.take(consumed),
                ({
                    let (i1, c1, e1, n, r1) = drain_fold(
                        self.inputs,
                        self.competition_mode,
                        self.is_executing,
                        self.command_process_queue@,
                    );
                    drain_fold(
                        old(self).inputs,
                        old(self).competition_mode,
                        old(self).is_executing,
                        orig_queue,
                    ) == (i1, c1, e1, consumed + n, r1)
                }),
            decreases self.command_process_queue@.len(),
        {
            let ghost pre_queue = self.command_process_queue@;
            match self.take_queued() {
                None => {
                    return Ok(());
                },
                Some(cmd) => {
                    let r = self.execute_command(cmd);
                    proof {
                        assert(orig_queue.skip(consumed).drop_first() =~= orig_queue.skip(
                            consumed + 1,
                        ));
                        assert(orig_queue.take(consumed + 1) =~= orig_queue.take(consumed).push(
                            pre_queue[0],
                        ));
                        assert(old(self).applied@ + orig_queue.take(consumed).push(pre_queue[0])
                            =~= (old(self).applied@ + orig_queue.take(consumed)).push(
                            pre_queue[0],
                        ));
                        consumed = consumed + 1;
                    }
                    if let Err(e) = r {
                        return Err(e);
                    }
                },
            }
        }
    }
}

} // verus!
