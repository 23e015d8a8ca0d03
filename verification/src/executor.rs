//! The execution coordinator: what each block of a script does to the
//! display, to the audio channels and to the schedulers, and where the
//! cursor goes.
//!
//! The coordinator owns the script and decides; it does not draw or play.
//! Every operation appends what is to be done, in order, to a list of
//! effects, which the caller carries out.

use crate::animator::{DisplayText, DisplayTextView};
use crate::assoc::{get, lookup};
use crate::command::{Command, CommandView, Label, LabelView};
use crate::config::{SaveData, VoiceConfig, clip_length};
use crate::error::EngineError;
use crate::overlay::in_force;
use crate::parser::{clears_all, compile, parse_script};
use crate::script::{BackLog, BackLogView, Figure, FigureView, PreBgm, PreBgmView, Script,
    ScriptView, backlog_window, explain_of, max_backlog_offset, nearest_part, scrolled};
use vstd::prelude::*;

verus! {

/// A place on the scene where a figure stands.
#[derive(Debug, Clone, Copy, PartialEq, Eq, Structural)]
pub enum Slot {
    /// Distance `z1`, position `-2`.
    Z1Left,
    /// Distance `z1`, position `0`.
    Z1Center,
    /// Distance `z1`, position `2`.
    Z1Right,
    /// Distance `no`, position `0`.
    NoCenter,
}

/// A delay pipeline.
#[derive(Debug, Clone, Copy, PartialEq, Eq, Structural)]
pub enum Pipeline {
    /// For figures and moves that carry a delay.
    Figure,
    /// For the steps that end a gesture.
    Move,
    /// For the rounds of a repeated gesture.
    Loop,
}

/// Where a figure is drawn relative to its place.
#[derive(Debug, Clone, Copy, PartialEq, Eq, Structural)]
pub enum Shift {
    /// At its place.
    Rest,
    /// Towards the right neighbour.
    Right,
    /// Towards the left neighbour.
    Left,
    /// Lowered, as in a nod.
    Nod,
}

/// Something for the caller to do.
#[derive(Debug)]
pub enum Effect {
    /// Show the background image.
    Background(String),
    /// Play the track in a loop.
    PlayBgm(String),
    /// Stop the music.
    StopBgm,
    /// Play the clip `voice` of the character `name` once.
    PlayVoice { name: String, voice: String },
    /// Show the name of the speaker.
    Speaker(String),
    /// Show the text as it is.
    Dialogue(String),
    /// Start to publish the text of the animator.
    StartText,
    /// Show the figure in its slot.
    Figure { slot: Slot, name: String, distance: String, body: String, face: String },
    /// Take the figure out of the slot.
    ClearFigure(Slot),
    /// Take the figures out of all slots.
    ClearAll,
    /// Draw the figure of the slot with the shift.
    Offset(Slot, Shift),
    /// Hand the command to the pipeline.
    Delay(Pipeline, Command),
    /// Hurry all pipelines.
    SkipDelays,
    /// Drop what waits in all pipelines.
    ClearDelays,
    /// Offer the choices; none takes the offer back.
    Choices(Vec<String>),
    /// Set the auto-play timer, in milliseconds.
    Auto(u64),
    /// Flip the auto-play switch.
    ToggleAuto,
    /// Show auto-play as switched off.
    AutoOff,
    /// Flip the fast-forward switch.
    ToggleSkip,
    /// Show fast-forward as switched off.
    SkipOff,
    /// Change to the screen.
    Screen(i32),
    /// Close the backlog.
    BacklogClosed,
    /// Show the lines of the backlog.
    Backlog(Vec<BackLog>),
}

/// Mathematical model of an [`Effect`].
pub ghost enum EffectView {
    Background(Seq<char>),
    PlayBgm(Seq<char>),
    StopBgm,
    PlayVoice { name: Seq<char>, voice: Seq<char> },
    Speaker(Seq<char>),
    Dialogue(Seq<char>),
    StartText,
    Figure { slot: Slot, name: Seq<char>, distance: Seq<char>, body: Seq<char>, face: Seq<char> },
    ClearFigure(Slot),
    ClearAll,
    Offset(Slot, Shift),
    Delay(Pipeline, CommandView),
    SkipDelays,
    ClearDelays,
    Choices(Seq<Seq<char>>),
    Auto(u64),
    ToggleAuto,
    AutoOff,
    ToggleSkip,
    SkipOff,
    Screen(i32),
    BacklogClosed,
    Backlog(Seq<BackLogView>),
}

impl View for Effect {
    type V = EffectView;

    open spec fn view(&self) -> EffectView {
        match *self {
            Effect::Background(s) => EffectView::Background(s@),
            Effect::PlayBgm(s) => EffectView::PlayBgm(s@),
            Effect::StopBgm => EffectView::StopBgm,
            Effect::PlayVoice { name, voice } => EffectView::PlayVoice {
                name: name@,
                voice: voice@,
            },
            Effect::Speaker(s) => EffectView::Speaker(s@),
            Effect::Dialogue(s) => EffectView::Dialogue(s@),
            Effect::StartText => EffectView::StartText,
            Effect::Figure { slot, name, distance, body, face } => EffectView::Figure {
                slot,
                name: name@,
                distance: distance@,
                body: body@,
                face: face@,
            },
            Effect::ClearFigure(s) => EffectView::ClearFigure(s),
            Effect::ClearAll => EffectView::ClearAll,
            Effect::Offset(s, shift) => EffectView::Offset(s, shift),
            Effect::Delay(p, c) => EffectView::Delay(p, c@),
            Effect::SkipDelays => EffectView::SkipDelays,
            Effect::ClearDelays => EffectView::ClearDelays,
            Effect::Choices(v) => EffectView::Choices(v.deep_view()),
            Effect::Auto(ms) => EffectView::Auto(ms),
            Effect::ToggleAuto => EffectView::ToggleAuto,
            Effect::AutoOff => EffectView::AutoOff,
            Effect::ToggleSkip => EffectView::ToggleSkip,
            Effect::SkipOff => EffectView::SkipOff,
            Effect::Screen(n) => EffectView::Screen(n),
            Effect::BacklogClosed => EffectView::BacklogClosed,
            Effect::Backlog(v) => EffectView::Backlog(v.deep_view()),
        }
    }
}

impl DeepView for Effect {
    type V = EffectView;

    open spec fn deep_view(&self) -> EffectView {
        self.view()
    }
}

/// Where to jump: to a label of a script, or to a block of a script.
#[derive(Debug)]
pub enum Jump {
    Label(Label),
    Index((String, i32)),
}

/// Mathematical model of a [`Jump`].
pub ghost enum JumpView {
    Label(LabelView),
    Index(Seq<char>, int),
}

impl View for Jump {
    type V = JumpView;

    open spec fn view(&self) -> JumpView {
        match *self {
            Jump::Label(l) => JumpView::Label(l.deep_view()),
            Jump::Index(t) => JumpView::Index(t.0@, t.1 as int),
        }
    }
}

impl JumpView {
    /// The script that the jump goes to.
    pub open spec fn script(self) -> Seq<char> {
        match self {
            JumpView::Label(l) => l.0,
            JumpView::Index(name, _) => name,
        }
    }
}

/// What the user has set on the display.
#[derive(Debug, Clone, Copy, PartialEq, Eq, Structural)]
pub struct Settings {
    /// The pause that auto-play adds to every line, in milliseconds.
    pub delay: u64,
    /// Whether auto-play waits for the voice to end.
    pub is_wait: bool,
    /// Whether auto-play is shown as switched on.
    pub is_auto: bool,
    /// Whether fast-forward is shown as switched on.
    pub is_skip: bool,
    /// The pause between two characters of a line, in milliseconds.
    pub text_speed: u64,
}

/// What the coordinator is given for an operation: the settings of the
/// user, the lengths of the recordings, and the texts of the scripts by name.
#[derive(Debug)]
pub struct Context {
    pub settings: Settings,
    pub voices: VoiceConfig,
    pub sources: Vec<(String, String)>,
}

/// Mathematical model of a [`Context`].
pub ghost struct ContextView {
    pub settings: Settings,
    pub voices: Seq<(Seq<char>, Seq<(Seq<char>, u64)>)>,
    pub sources: Seq<(Seq<char>, Seq<char>)>,
}

impl View for Context {
    type V = ContextView;

    open spec fn view(&self) -> ContextView {
        ContextView {
            settings: self.settings,
            voices: self.voices.voice_length.deep_view(),
            sources: self.sources.deep_view(),
        }
    }
}

/// The execution coordinator.
#[derive(Debug)]
pub struct Executor {
    /// The script that plays.
    pub script: Script,
    /// The animator of the line on display.
    pub text: DisplayText,
    /// Whether a choice waits for its answer.
    pub choose_lock: bool,
}

/// Mathematical model of an [`Executor`].
pub ghost struct ExecutorView {
    pub script: ScriptView,
    pub text: DisplayTextView,
    pub choose_lock: bool,
}

impl View for Executor {
    type V = ExecutorView;

    open spec fn view(&self) -> ExecutorView {
        ExecutorView { script: self.script@, text: self.text@, choose_lock: self.choose_lock }
    }
}

/// How an operation went: the state after it, the effects listed so far, the
/// time that its voices take, and the error that ended it early.
pub ghost struct Run {
    pub state: ExecutorView,
    pub log: Seq<EffectView>,
    pub duration: nat,
    pub error: Option<EngineError>,
}

/// An operation that went through.
pub open spec fn keep(state: ExecutorView, log: Seq<EffectView>) -> Run {
    Run { state, log, duration: 0, error: None }
}

/// An operation that failed.
pub open spec fn fail(state: ExecutorView, log: Seq<EffectView>, e: EngineError) -> Run {
    Run { state, log, duration: 0, error: Some(e) }
}

/// Whether the state, the effects and the result of an operation are those of `run`.
pub open spec fn done(
    run: Run,
    state: ExecutorView,
    log: Seq<EffectView>,
    result: Result<(), EngineError>,
) -> bool {
    &&& state == run.state
    &&& log == run.log
    &&& match result {
        Ok(()) => run.error is None,
        Err(e) => run.error == Some(e),
    }
}

/// Whether the state, the effects and the result of an operation that
/// measures time are those of `run`.
pub open spec fn timed(
    run: Run,
    state: ExecutorView,
    log: Seq<EffectView>,
    result: Result<u64, EngineError>,
) -> bool {
    &&& state == run.state
    &&& log == run.log
    &&& match result {
        Ok(ms) => run.error is None && ms == run.duration,
        Err(e) => run.error == Some(e),
    }
}

/// The sum of two times, kept within 64 bits.
pub open spec fn capped(a: nat, b: nat) -> nat {
    if a + b > u64::MAX {
        u64::MAX as nat
    } else {
        a + b
    }
}

/// The slot at `distance` and `position`.
pub open spec fn slot_of(distance: Seq<char>, position: Seq<char>) -> Option<Slot> {
    if distance == "z1"@ && position == "-2"@ {
        Some(Slot::Z1Left)
    } else if distance == "z1"@ && position == "0"@ {
        Some(Slot::Z1Center)
    } else if distance == "z1"@ && position == "2"@ {
        Some(Slot::Z1Right)
    } else if distance == "no"@ && position == "0"@ {
        Some(Slot::NoCenter)
    } else {
        None
    }
}

/// The block that is being applied: the one before the cursor.
pub open spec fn applied_block(script: ScriptView) -> nat {
    if script.current_block > 0 {
        (script.current_block - 1) as nat
    } else {
        0
    }
}

/// Taking figures out of the scene.
pub open spec fn clean_fg_run(
    st: ExecutorView,
    log: Seq<EffectView>,
    distance: Seq<char>,
    position: Seq<char>,
) -> Run {
    if clears_all(distance, position) {
        keep(st, log.push(EffectView::ClearAll))
    } else {
        match slot_of(distance, position) {
            Some(slot) => keep(st, log.push(EffectView::ClearFigure(slot))),
            None => fail(st, log, EngineError::UiError),
        }
    }
}

/// Showing a figure. A figure with a delay goes to the figure pipeline. A
/// figure without one is shown in its slot at once; where it names no body,
/// or no face, it takes the one that its slot showed last.
pub open spec fn show_fg_run(st: ExecutorView, log: Seq<EffectView>, fg: CommandView) -> Run {
    match fg {
        CommandView::Figure { name, distance, body, face, position, delay } => {
            if delay is Some {
                keep(st, log.push(EffectView::Delay(Pipeline::Figure, fg)))
            } else {
                match slot_of(distance, position) {
                    None => fail(st, log, EngineError::UiError),
                    Some(slot) => {
                        let index = applied_block(st.script);
                        keep(
                            st,
                            log.push(
                                EffectView::Figure {
                                    slot,
                                    name,
                                    distance,
                                    body: if body.len() == 0 {
                                        nearest_part(
                                            st.script.commands,
                                            index,
                                            distance,
                                            position,
                                            false,
                                        )
                                    } else {
                                        body
                                    },
                                    face: if face.len() == 0 {
                                        nearest_part(
                                            st.script.commands,
                                            index,
                                            distance,
                                            position,
                                            true,
                                        )
                                    } else {
                                        face
                                    },
                                },
                            ),
                        )
                    },
                }
            }
        },
        _ => fail(st, log, EngineError::UiError),
    }
}

/// What a gesture hands to the pipelines for its next round: while rounds
/// are left, the way back to rest and the next round, on the loop pipeline;
/// in the last round, `last` on the move pipeline.
pub open spec fn gesture_log(
    log: Seq<EffectView>,
    mv: CommandView,
    last: Seq<CommandView>,
) -> Seq<EffectView> {
    if mv->Move_repeat != 1 {
        log.push(EffectView::Delay(Pipeline::Loop, mv.back())).push(
            EffectView::Delay(Pipeline::Loop, mv.repeated()),
        )
    } else {
        log + Seq::new(last.len(), |i: int| EffectView::Delay(Pipeline::Move, last[i]))
    }
}

/// Moving a figure. A move with a delay goes to the figure pipeline. A move
/// without one shifts the figure of its slot and hands the steps that
/// follow to the pipelines:
/// - `to2` moves the figure at the centre towards the right;
/// - `to0` moves the figure on the right towards the centre;
/// - `nod` lowers the figure;
/// - `back` brings it back to rest;
/// - `back_and_clean` brings it back to rest and takes it off the scene.
pub open spec fn show_move_run(st: ExecutorView, log: Seq<EffectView>, mv: CommandView) -> Run {
    match mv {
        CommandView::Move { name, distance, body, face, position, action, repeat, delay } => {
            let slot = slot_of(distance, position);
            if delay is Some {
                keep(st, log.push(EffectView::Delay(Pipeline::Figure, mv)))
            } else if slot is None || slot == Some(Slot::NoCenter) {
                fail(st, log, EngineError::UiError)
            } else if action == "to2"@ {
                if slot == Some(Slot::Z1Center) {
                    keep(
                        st,
                        gesture_log(log, mv, seq![mv.figure_at("2"@), mv.back_and_clean()]).push(
                            EffectView::Offset(Slot::Z1Center, Shift::Right),
                        ),
                    )
                } else {
                    fail(st, log, EngineError::UiError)
                }
            } else if action == "to0"@ {
                if slot == Some(Slot::Z1Right) {
                    keep(
                        st,
                        log.push(EffectView::Delay(Pipeline::Move, mv.figure_at("0"@))).push(
                            EffectView::Delay(Pipeline::Move, mv.back()),
                        ).push(EffectView::Offset(Slot::Z1Right, Shift::Left)),
                    )
                } else {
                    fail(st, log, EngineError::UiError)
                }
            } else if action == "nod"@ {
                keep(
                    st,
                    gesture_log(log, mv, seq![mv.back()]).push(
                        EffectView::Offset(slot->0, Shift::Nod),
                    ),
                )
            } else if action == "back"@ {
                keep(st, log.push(EffectView::Offset(slot->0, Shift::Rest)))
            } else if action == "back_and_clean"@ {
                keep(
                    st,
                    log.push(EffectView::ClearFigure(slot->0)).push(
                        EffectView::Offset(slot->0, Shift::Rest),
                    ),
                )
            } else {
                fail(st, log, EngineError::UiError)
            }
        },
        _ => fail(st, log, EngineError::UiError),
    }
}

/// Whether `s` spells the word `word`.
pub fn spells(s: &str, word: &str) -> (r: bool)
    ensures
        r == (s@ == word@),
{
    let a = String::from_str(s);
    let b = String::from_str(word);
    a == b
}

/// The slot at `distance` and `position`.
pub fn find_slot(distance: &str, position: &str) -> (r: Option<Slot>)
    ensures
        r == slot_of(distance@, position@),
{
    if spells(distance, "z1") && spells(position, "-2") {
        Some(Slot::Z1Left)
    } else if spells(distance, "z1") && spells(position, "0") {
        Some(Slot::Z1Center)
    } else if spells(distance, "z1") && spells(position, "2") {
        Some(Slot::Z1Right)
    } else if spells(distance, "no") && spells(position, "0") {
        Some(Slot::NoCenter)
    } else {
        None
    }
}

/// Adds an effect to the list.
pub fn emit(out: &mut Vec<Effect>, effect: Effect)
    ensures
        final(out).deep_view() == old(out).deep_view().push(effect@),
{
    let ghost before = out.deep_view();
    let ghost added = effect@;
    out.push(effect);
    assert(out.deep_view() =~= before.push(added));
}

impl Executor {
    /// A coordinator for the script, at rest.
    pub fn new(script: Script) -> (r: Executor)
        ensures
            r@ == (ExecutorView {
                script: script@,
                text: DisplayTextView::idle(),
                choose_lock: false,
            }),
    {
        Executor { script, text: DisplayText::new(), choose_lock: false }
    }

    /// The block that is being applied: the one before the cursor.
    pub fn applied(&self) -> (r: usize)
        ensures
            r == applied_block(self@.script),
    {
        self.script.current_block.saturating_sub(1)
    }

    /// Takes the figure out of the slot at `distance` and `position`, or, for
    /// `All` and `All`, the figures out of all slots. Any other place is an
    /// error of the display.
    pub fn clean_fg(&self, distance: &str, position: &str, out: &mut Vec<Effect>) -> (r: Result<
        (),
        EngineError,
    >)
        ensures
            done(
                clean_fg_run(self@, old(out).deep_view(), distance@, position@),
                self@,
                final(out).deep_view(),
                r,
            ),
    {
        if spells(distance, "All") && spells(position, "All") {
            emit(out, Effect::ClearAll);
            Ok(())
        } else {
            match find_slot(distance, position) {
                Some(slot) => {
                    emit(out, Effect::ClearFigure(slot));
                    Ok(())
                },
                None => Err(EngineError::UiError),
            }
        }
    }

    /// Shows the figure `fg`, at once or after its delay. A command that is
    /// no figure, or a figure at a place that is no slot, is an error of the
    /// display.
    pub fn show_fg(&self, fg: &Command, out: &mut Vec<Effect>) -> (r: Result<(), EngineError>)
        ensures
            done(show_fg_run(self@, old(out).deep_view(), fg@), self@, final(out).deep_view(), r),
    {
        match fg {
            Command::Figure { name, distance, body, face, position, delay } => {
                if delay.is_some() {
                    emit(out, Effect::Delay(Pipeline::Figure, fg.clone()));
                    return Ok(());
                }
                match find_slot(distance.as_str(), position.as_str()) {
                    None => Err(EngineError::UiError),
                    Some(slot) => {
                        let index = self.applied();
                        let shown_body = if body.as_str().is_empty() {
                            self.script.find_nearest_part(
                                index,
                                distance.as_str(),
                                position.as_str(),
                                false,
                            )
                        } else {
                            body.clone()
                        };
                        let shown_face = if face.as_str().is_empty() {
                            self.script.find_nearest_part(
                                index,
                                distance.as_str(),
                                position.as_str(),
                                true,
                            )
                        } else {
                            face.clone()
                        };
                        emit(
                            out,
                            Effect::Figure {
                                slot,
                                name: name.clone(),
                                distance: distance.clone(),
                                body: shown_body,
                                face: shown_face,
                            },
                        );
                        Ok(())
                    },
                }
            },
            _ => Err(EngineError::UiError),
        }
    }

    /// Hands the next round of the gesture `mv` to the pipelines.
    fn hand_on(mv: &Command, last: Vec<Command>, out: &mut Vec<Effect>)
        requires
            mv@ is Move,
        ensures
            final(out).deep_view() == gesture_log(old(out).deep_view(), mv@, last.deep_view()),
    {
        let once = match mv {
            Command::Move { repeat, .. } => *repeat == 1,
            _ => false,
        };
        if !once {
            emit(out, Effect::Delay(Pipeline::Loop, mv.back()));
            emit(out, Effect::Delay(Pipeline::Loop, mv.repeated()));
        } else {
            let ghost before = out.deep_view();
            let ghost steps = last.deep_view();
            let mut i: usize = 0;
            let ghost wanted = Seq::new(
                steps.len(),
                |k: int| EffectView::Delay(Pipeline::Move, steps[k]),
            );
            assert(before + wanted.take(0) =~= before);
            while i < last.len()
                invariant
                    i <= last.len(),
                    steps == last.deep_view(),
                    wanted == Seq::new(
                        steps.len(),
                        |k: int| EffectView::Delay(Pipeline::Move, steps[k]),
                    ),
                    out.deep_view() == before + wanted.take(i as int),
                decreases last.len() - i,
            {
                let step = last[i].clone();
                assert(step@ == steps[i as int]);
                emit(out, Effect::Delay(Pipeline::Move, step));
                assert(before + wanted.take(i + 1) =~= (before + wanted.take(i as int)).push(
                    wanted[i as int],
                ));
                i += 1;
            }
            assert(wanted.take(i as int) =~= wanted);
        }
    }

    /// Moves the figure of `fg_move`, at once or after its delay. A command
    /// that is no move, a move at a place where no figure moves, or an
    /// action that its place does not allow, is an error of the display.
    pub fn show_move(&self, fg_move: &Command, out: &mut Vec<Effect>) -> (r: Result<
        (),
        EngineError,
    >)
        ensures
            done(
                show_move_run(self@, old(out).deep_view(), fg_move@),
                self@,
                final(out).deep_view(),
                r,
            ),
    {
        match fg_move {
            Command::Move { distance, position, action, delay, .. } => {
                if delay.is_some() {
                    emit(out, Effect::Delay(Pipeline::Figure, fg_move.clone()));
                    return Ok(());
                }
                let slot = match find_slot(distance.as_str(), position.as_str()) {
                    None => {
                        return Err(EngineError::UiError);
                    },
                    Some(Slot::NoCenter) => {
                        return Err(EngineError::UiError);
                    },
                    Some(slot) => slot,
                };
                let act = action.as_str();
                if spells(act, "to2") {
                    match slot {
                        Slot::Z1Center => {
                            let mut last: Vec<Command> = Vec::new();
                            last.push(fg_move.figure_at("2"));
                            last.push(fg_move.back_and_clean());
                            assert(last.deep_view() =~= seq![
                                fg_move@.figure_at("2"@),
                                fg_move@.back_and_clean(),
                            ]);
                            Self::hand_on(fg_move, last, out);
                            emit(out, Effect::Offset(Slot::Z1Center, Shift::Right));
                            Ok(())
                        },
                        _ => Err(EngineError::UiError),
                    }
                } else if spells(act, "to0") {
                    match slot {
                        Slot::Z1Right => {
                            emit(out, Effect::Delay(Pipeline::Move, fg_move.figure_at("0")));
                            emit(out, Effect::Delay(Pipeline::Move, fg_move.back()));
                            emit(out, Effect::Offset(Slot::Z1Right, Shift::Left));
                            Ok(())
                        },
                        _ => Err(EngineError::UiError),
                    }
                } else if spells(act, "nod") {
                    let mut last: Vec<Command> = Vec::new();
                    last.push(fg_move.back());
                    assert(last.deep_view() =~= seq![fg_move@.back()]);
                    Self::hand_on(fg_move, last, out);
                    emit(out, Effect::Offset(slot, Shift::Nod));
                    Ok(())
                } else if spells(act, "back") {
                    emit(out, Effect::Offset(slot, Shift::Rest));
                    Ok(())
                } else if spells(act, "back_and_clean") {
                    emit(out, Effect::ClearFigure(slot));
                    emit(out, Effect::Offset(slot, Shift::Rest));
                    Ok(())
                } else {
                    Err(EngineError::UiError)
                }
            },
            _ => Err(EngineError::UiError),
        }
    }
}

/// Applying a command that a delay pipeline hands over: a figure is shown,
/// a move is made, and any other command does nothing.
pub open spec fn delayed_run(st: ExecutorView, log: Seq<EffectView>, command: CommandView) -> Run {
    match command {
        CommandView::Figure { .. } => show_fg_run(st, log, command),
        CommandView::Move { .. } => show_move_run(st, log, command),
        _ => keep(st, log),
    }
}

/// The commands of the figures of one block, in the order of their slots.
pub open spec fn figure_commands(f: FigureView) -> Seq<CommandView> {
    Seq::new(f.len(), |i: int| f[i].1)
}

/// Showing the figures `figs` from position `i` on, up to the first that fails.
pub open spec fn show_all_run(
    st: ExecutorView,
    log: Seq<EffectView>,
    figs: Seq<CommandView>,
    i: int,
) -> Run
    decreases figs.len() - i,
{
    if i < 0 || i >= figs.len() {
        keep(st, log)
    } else {
        let r = show_fg_run(st, log, figs[i]);
        if r.error is Some {
            r
        } else {
            show_all_run(st, r.log, figs, i + 1)
        }
    }
}

/// The script without what waits for the next render.
pub open spec fn without_overlays(script: ScriptView) -> ScriptView {
    ScriptView { pre_bg: None, pre_bgm: PreBgmView::Keep, pre_figures: None, ..script }
}

/// Rendering what a jump has left for the next render: the background, the
/// music and the figures of the place where it landed. They are rendered
/// once.
pub open spec fn overlays_run(st: ExecutorView, log: Seq<EffectView>) -> Run {
    let cleared = ExecutorView { script: without_overlays(st.script), ..st };
    let with_bg = match st.script.pre_bg {
        Some(bg) => log.push(EffectView::Background(bg)),
        None => log,
    };
    let with_bgm = match st.script.pre_bgm {
        PreBgmView::Play(b) => with_bg.push(EffectView::PlayBgm(b)),
        PreBgmView::Stop => with_bg.push(EffectView::StopBgm),
        PreBgmView::Keep => with_bg,
    };
    match st.script.pre_figures {
        Some(f) => show_all_run(cleared, with_bgm, figure_commands(f), 0),
        None => keep(cleared, with_bgm),
    }
}

/// The block that a jump lands on in `script`: that of its label, if the
/// script has the label, or the block that it names, counted from 0.
pub open spec fn jump_target(script: ScriptView, jump: JumpView) -> Option<nat> {
    match jump {
        JumpView::Label(l) => match lookup(script.labels, l.1) {
            Some(i) => Some(i as nat),
            None => None,
        },
        JumpView::Index(_, i) => Some(
            if i < 0 {
                0
            } else {
                i as nat
            },
        ),
    }
}

/// The script after a jump has landed on `target` while the track `playing`
/// plays. The cursor stands on the target. What is in force there waits for
/// the next render: the music, if it is another than the one that plays,
/// or silence, if none is in force; the background; the figures. Without a
/// target the cursor stays and nothing waits.
pub open spec fn landed(script: ScriptView, playing: Seq<char>, target: Option<nat>) -> ScriptView {
    match target {
        Some(index) => ScriptView {
            current_block: index,
            pre_bgm: match in_force(script.bgms, index) {
                Some(e) => if e.1 != playing {
                    PreBgmView::Play(e.1)
                } else {
                    PreBgmView::Keep
                },
                None => PreBgmView::Stop,
            },
            pre_bg: match in_force(script.backgrounds, index) {
                Some(e) => Some(e.1),
                None => None,
            },
            pre_figures: match in_force(script.figures, index) {
                Some(e) => Some(e.1),
                None => None,
            },
            ..script
        },
        None => without_overlays(script),
    }
}

/// The script named `name` as a jump finds it: the script that plays, if
/// that is its name; else the one that its source compiles to, with the
/// backlog of the script that plays.
pub open spec fn loaded(script: ScriptView, name: Seq<char>, ctx: ContextView) -> Result<
    ScriptView,
    EngineError,
> {
    if name == script.name {
        Ok(script)
    } else {
        match lookup(ctx.sources, name) {
            None => Err(EngineError::FileError),
            Some(text) => match compile(name, text) {
                Ok(doc) => Ok(ScriptView { backlog: script.backlog, ..doc }),
                Err(_) => Err(EngineError::ParseError),
            },
        }
    }
}

/// A jump. It fails, and changes nothing, where the script that it names is
/// another than the one that plays and has no source or does not compile.
/// Else all figures leave the scene and the script lands on the target.
pub open spec fn jump_run(
    st: ExecutorView,
    log: Seq<EffectView>,
    jump: JumpView,
    ctx: ContextView,
) -> Run {
    match loaded(st.script, jump.script(), ctx) {
        Err(e) => fail(st, log, e),
        Ok(script) => keep(
            ExecutorView {
                script: landed(script, st.script.current_bgm, jump_target(script, jump)),
                ..st
            },
            log.push(EffectView::ClearAll),
        ),
    }
}

/// The texts of the options of a choice, in their order.
pub open spec fn choice_texts(options: Seq<(Seq<char>, LabelView)>) -> Seq<Seq<char>> {
    Seq::new(options.len(), |i: int| options[i].0)
}

/// The speaker under which a choice enters the backlog.
pub open spec fn choice_speaker() -> Seq<char> {
    "选择支"@
}

/// The line from which the save-slot label of a choice is made.
pub open spec fn choice_line(prompt: Seq<char>) -> Seq<char> {
    "选择支："@ + prompt
}

/// What one command does, once nothing waits for the render.
pub open spec fn command_run(
    st: ExecutorView,
    log: Seq<EffectView>,
    cmd: CommandView,
    ctx: ContextView,
) -> Run {
    match cmd {
        CommandView::SetBackground(bg) => keep(st, log.push(EffectView::Background(bg))),
        CommandView::PlayBgm(bgm) => if bgm != st.script.current_bgm {
            keep(
                ExecutorView { script: ScriptView { current_bgm: bgm, ..st.script }, ..st },
                log.push(EffectView::PlayBgm(bgm)),
            )
        } else {
            keep(st, log)
        },
        CommandView::Choice(prompt, options) => keep(
            ExecutorView {
                choose_lock: true,
                script: (ScriptView {
                    explain: explain_of(choice_line(prompt)),
                    ..st.script
                }).with_backlog(choice_speaker(), prompt),
                ..st
            },
            log.push(EffectView::Choices(choice_texts(options))),
        ),
        CommandView::Dialogue { speaker, text } => keep(
            ExecutorView {
                script: (ScriptView { explain: explain_of(text), ..st.script }).with_backlog(
                    speaker,
                    text,
                ),
                text: DisplayTextView::started(text, ctx.settings.text_speed as nat),
                ..st
            },
            log.push(EffectView::Speaker(speaker)).push(EffectView::StartText),
        ),
        CommandView::PlayVoice { name, voice } => match clip_length(ctx.voices, name, voice) {
            Some(ms) => Run {
                state: st,
                log: log.push(EffectView::PlayVoice { name, voice }),
                duration: ms as nat,
                error: None,
            },
            None => keep(st, log),
        },
        CommandView::Figure { .. } => show_fg_run(st, log, cmd),
        CommandView::Move { .. } => show_move_run(st, log, cmd),
        CommandView::Clear(distance, position) => clean_fg_run(st, log, distance, position),
        CommandView::Jump(l) => jump_run(st, log, JumpView::Label(l), ctx),
        CommandView::Label(_) => keep(st, log),
        CommandView::Empty => keep(st, log),
    }
}

/// Applying one command: first what waits for the render, then the command.
pub open spec fn apply_run(
    st: ExecutorView,
    log: Seq<EffectView>,
    cmd: CommandView,
    ctx: ContextView,
) -> Run {
    let o = overlays_run(st, log);
    if o.error is Some {
        o
    } else {
        command_run(o.state, o.log, cmd, ctx)
    }
}

/// Applying the commands of a block from position `i` on, in order, up to
/// the first that fails; `time` is what the voices before `i` take.
pub open spec fn block_run(
    st: ExecutorView,
    log: Seq<EffectView>,
    cmds: Seq<CommandView>,
    i: int,
    time: nat,
    ctx: ContextView,
) -> Run
    decreases cmds.len() - i,
{
    if i < 0 || i >= cmds.len() {
        Run { state: st, log, duration: time, error: None }
    } else {
        let r = apply_run(st, log, cmds[i], ctx);
        if r.error is Some {
            r
        } else {
            block_run(r.state, r.log, cmds, i + 1, capped(time, r.duration), ctx)
        }
    }
}

/// Advancing the script by one step.
/// 1. While a choice waits for its answer, nothing happens.
/// 2. The pipelines are hurried, or, where the block under the cursor wipes
///    every figure, emptied.
/// 3. While a line is being revealed, the step finishes the line and ends.
/// 4. At the end of the script the step ends.
/// 5. The cursor moves on, and the commands of the block that it stood on
///    are applied in order.
/// 6. With auto-play on, the timer is set to the pause of the user and, if
///    auto-play waits for voices, the time that the voices of the block take.
pub open spec fn script_run(st: ExecutorView, log: Seq<EffectView>, ctx: ContextView) -> Run {
    if st.choose_lock {
        keep(st, log)
    } else {
        let signalled = if st.script.clear.contains(st.script.current_block) {
            log.push(EffectView::ClearDelays)
        } else {
            log.push(EffectView::SkipDelays)
        };
        if st.text.is_running {
            keep(ExecutorView { text: st.text.ended(), ..st }, signalled)
        } else if st.script.current_block >= st.script.commands.len() {
            keep(st, signalled)
        } else {
            let block = st.script.commands[st.script.current_block as int];
            let moved = ExecutorView {
                script: ScriptView { current_block: st.script.current_block + 1, ..st.script },
                ..st
            };
            let r = block_run(moved, signalled, block.items(), 0, 0, ctx);
            if r.error is Some {
                r
            } else {
                let total = if ctx.settings.is_wait {
                    capped(ctx.settings.delay as nat, r.duration)
                } else {
                    ctx.settings.delay as nat
                };
                Run {
                    state: r.state,
                    log: if ctx.settings.is_auto {
                        r.log.push(EffectView::Auto(total as u64))
                    } else {
                        r.log
                    },
                    duration: r.duration,
                    error: None,
                }
            }
        }
    }
}

/// The pause that auto-play makes after a choice is answered, in milliseconds.
pub const CHOICE_PAUSE: u64 = 5000;

/// The first timer of auto-play, in milliseconds.
pub const FIRST_PAUSE: u64 = 1000;

/// The screen on which the script plays.
pub const PLAY_SCREEN: i32 = 2;

/// Answering a choice with the text `choice`. A text that is no choice of
/// the script is an error of the display and changes nothing. Else the
/// choice stops waiting, its text is shown and enters the backlog, auto-play
/// pauses, and the script jumps to the target of the choice.
pub open spec fn choose_run(
    st: ExecutorView,
    log: Seq<EffectView>,
    choice: Seq<char>,
    ctx: ContextView,
) -> Run {
    match lookup(st.script.choices, choice) {
        None => fail(st, log, EngineError::UiError),
        Some(label) => {
            let answered = ExecutorView {
                choose_lock: false,
                script: st.script.with_backlog(Seq::empty(), choice),
                ..st
            };
            let shown = log.push(EffectView::Choices(Seq::empty())).push(
                EffectView::Speaker(Seq::empty()),
            ).push(EffectView::Dialogue(choice));
            let paused = if ctx.settings.is_auto {
                shown.push(EffectView::Auto(CHOICE_PAUSE))
            } else {
                shown
            };
            jump_run(answered, paused, JumpView::Label(label), ctx)
        },
    }
}

/// The block before block `index`; block `index` itself where none is before it.
pub open spec fn block_before(index: int) -> int {
    if index > i32::MIN {
        index - 1
    } else {
        index
    }
}

/// Loading the place that a save slot or a line of the backlog names: the
/// script `name` at the block before `index`, which is applied at once. An
/// empty name loads nothing.
pub open spec fn load_run(
    st: ExecutorView,
    log: Seq<EffectView>,
    name: Seq<char>,
    index: int,
    ctx: ContextView,
) -> Run {
    if name.len() == 0 {
        keep(st, log)
    } else {
        let j = jump_run(
            st,
            log.push(EffectView::Screen(PLAY_SCREEN)).push(EffectView::Choices(Seq::empty())),
            JumpView::Index(name, block_before(index)),
            ctx,
        );
        if j.error is Some {
            j
        } else {
            script_run(j.state, j.log, ctx)
        }
    }
}

impl Executor {
    /// Renders what waits for the next render.
    pub fn apply_overlays(&mut self, out: &mut Vec<Effect>) -> (r: Result<(), EngineError>)
        ensures
            done(
                overlays_run(old(self)@, old(out).deep_view()),
                final(self)@,
                final(out).deep_view(),
                r,
            ),
    {
        let ghost goal = overlays_run(self@, out.deep_view());
        let pre_bg = self.script.pre_bg();
        let pre_bgm = self.script.pre_bgm();
        let pre_fg = self.script.pre_figures();
        match pre_bg {
            Some(bg) => {
                emit(out, Effect::Background(bg));
            },
            None => {},
        }
        match pre_bgm {
            PreBgm::Play(bgm) => {
                emit(out, Effect::PlayBgm(bgm));
            },
            PreBgm::Stop => {
                emit(out, Effect::StopBgm);
            },
            PreBgm::Keep => {},
        }
        match pre_fg {
            Some(figures) => {
                let cmds = figures.commands();
                let ghost figs = cmds.deep_view();
                assert(figs =~= figure_commands(figures@));
                let mut i: usize = 0;
                while i < cmds.len()
                    invariant
                        i <= cmds.len(),
                        figs == cmds.deep_view(),
                        goal == overlays_run(old(self)@, old(out).deep_view()),
                        goal == show_all_run(self@, out.deep_view(), figs, i as int),
                    decreases cmds.len() - i,
                {
                    assert(figs[i as int] == cmds@[i as int]@);
                    match self.show_fg(&cmds[i], out) {
                        Ok(()) => {},
                        Err(e) => {
                            return Err(e);
                        },
                    }
                    i += 1;
                }
                Ok(())
            },
            None => Ok(()),
        }
    }

    /// Jumps to a label or to a block of a script. The other scripts are
    /// found by name among the sources of `ctx`.
    pub fn execute_jump(&mut self, label: Jump, ctx: &Context, out: &mut Vec<Effect>) -> (r:
        Result<(), EngineError>)
        ensures
            done(
                jump_run(old(self)@, old(out).deep_view(), label@, ctx@),
                final(self)@,
                final(out).deep_view(),
                r,
            ),
    {
        let playing = self.script.current_bgm.clone();
        let name: &String = match &label {
            Jump::Label(l) => &l.0,
            Jump::Index(t) => &t.0,
        };
        if !(*name == self.script.name) {
            match get(&ctx.sources, name) {
                None => {
                    return Err(EngineError::FileError);
                },
                Some(text) => {
                    match parse_script(text.as_str(), name.as_str()) {
                        Err(e) => {
                            return Err(EngineError::from(e));
                        },
                        Ok(script) => {
                            let mut script = script;
                            let mut backlog: Vec<BackLog> = Vec::new();
                            std::mem::swap(&mut self.script.backlog, &mut backlog);
                            script.backlog = backlog;
                            self.script = script;
                        },
                    }
                },
            }
        }
        let target: Option<usize> = match &label {
            Jump::Label(l) => self.script.find_label(l.1.as_str()),
            Jump::Index(t) => Some(
                if t.1 < 0 {
                    0
                } else {
                    t.1 as usize
                },
            ),
        };
        match target {
            Some(index) => {
                let pre_bgm = match self.script.get_bgm(index) {
                    Some((_, bgm)) => {
                        if !(*bgm == playing) {
                            PreBgm::Play(bgm.clone())
                        } else {
                            PreBgm::Keep
                        }
                    },
                    None => PreBgm::Stop,
                };
                let pre_bg = match self.script.get_background(index) {
                    Some((_, bg)) => Some(bg.clone()),
                    None => None,
                };
                let pre_figures = match self.script.get_figures(index) {
                    Some((_, figures)) => Some(figures.clone()),
                    None => None,
                };
                self.script.set_pre_bg(pre_bg);
                self.script.set_pre_bgm(pre_bgm);
                emit(out, Effect::ClearAll);
                self.script.set_pre_figures(pre_figures);
                self.script.set_index(index);
            },
            None => {
                self.script.set_pre_bg(None);
                self.script.set_pre_bgm(PreBgm::Keep);
                emit(out, Effect::ClearAll);
                self.script.set_pre_figures(None);
            },
        }
        Ok(())
    }

    /// The texts of the options of a choice, in their order.
    fn texts_of(options: &Vec<(String, Label)>) -> (r: Vec<String>)
        ensures
            r.deep_view() == choice_texts(options.deep_view()),
    {
        let mut r: Vec<String> = Vec::new();
        let mut i: usize = 0;
        while i < options.len()
            invariant
                i <= options.len(),
                r.len() == i,
                forall|j: int| 0 <= j < i ==> r@[j]@ == options@[j].0@,
            decreases options.len() - i,
        {
            r.push(options[i].0.clone());
            i += 1;
        }
        assert(r.deep_view() =~= choice_texts(options.deep_view()));
        r
    }

    /// Applies a command that a delay pipeline hands over: shows a figure,
    /// makes a move, and does nothing for any other command.
    pub fn apply_delayed(&self, command: &Command, out: &mut Vec<Effect>) -> (r: Result<
        (),
        EngineError,
    >)
        ensures
            done(
                delayed_run(self@, old(out).deep_view(), command@),
                self@,
                final(out).deep_view(),
                r,
            ),
    {
        match command {
            Command::Figure { .. } => self.show_fg(command, out),
            Command::Move { .. } => self.show_move(command, out),
            _ => Ok(()),
        }
    }

    /// Applies one command: renders what waits for the render, then does
    /// what the command asks. Returns the time that its voice takes, in
    /// milliseconds.
    pub fn apply_command(&mut self, command: Command, ctx: &Context, out: &mut Vec<Effect>) -> (r:
        Result<u64, EngineError>)
        ensures
            timed(
                apply_run(old(self)@, old(out).deep_view(), command@, ctx@),
                final(self)@,
                final(out).deep_view(),
                r,
            ),
    {
        match self.apply_overlays(out) {
            Ok(()) => {},
            Err(e) => {
                return Err(e);
            },
        }
        match command {
            Command::SetBackground(bg) => {
                emit(out, Effect::Background(bg));
                Ok(0)
            },
            Command::PlayBgm(bgm) => {
                if !(bgm == self.script.current_bgm) {
                    self.script.set_current_bgm(bgm.clone());
                    emit(out, Effect::PlayBgm(bgm));
                }
                Ok(0)
            },
            Command::Choice(choice) => {
                self.choose_lock = true;
                let mut line = String::from_str("选择支：");
                line.append(choice.0.as_str());
                self.script.set_explain(&line);
                let texts = Self::texts_of(&choice.1);
                self.script.push_backlog(String::from_str("选择支"), choice.0);
                emit(out, Effect::Choices(texts));
                Ok(0)
            },
            Command::Dialogue { speaker, text } => {
                self.script.set_explain(&text);
                self.script.push_backlog(speaker.clone(), text.clone());
                emit(out, Effect::Speaker(speaker));
                self.text.start_animation(text, ctx.settings.text_speed);
                emit(out, Effect::StartText);
                Ok(0)
            },
            Command::PlayVoice { name, voice } => {
                match ctx.voices.length_of(name.as_str(), voice.as_str()) {
                    Some(ms) => {
                        emit(out, Effect::PlayVoice { name, voice });
                        Ok(ms)
                    },
                    None => Ok(0),
                }
            },
            Command::Figure { .. } => {
                match self.show_fg(&command, out) {
                    Ok(()) => Ok(0),
                    Err(e) => Err(e),
                }
            },
            Command::Move { .. } => {
                match self.show_move(&command, out) {
                    Ok(()) => Ok(0),
                    Err(e) => Err(e),
                }
            },
            Command::Clear(distance, position) => {
                match self.clean_fg(distance.as_str(), position.as_str(), out) {
                    Ok(()) => Ok(0),
                    Err(e) => Err(e),
                }
            },
            Command::Jump(jump) => {
                match self.execute_jump(Jump::Label(jump), ctx, out) {
                    Ok(()) => Ok(0),
                    Err(e) => Err(e),
                }
            },
            Command::Label(_) => Ok(0),
            Command::Empty => Ok(0),
        }
    }

    /// Advances the script by one step: a click, a tick of fast-forward or
    /// a pulse of auto-play. While a choice waits for its answer the step
    /// changes nothing.
    pub fn execute_script(&mut self, ctx: &Context, out: &mut Vec<Effect>) -> (r: Result<
        (),
        EngineError,
    >)
        ensures
            done(
                script_run(old(self)@, old(out).deep_view(), ctx@),
                final(self)@,
                final(out).deep_view(),
                r,
            ),
            old(self)@.choose_lock ==> final(self)@ == old(self)@ && final(out).deep_view() == old(
                out,
            ).deep_view() && r is Ok,
    {
        if self.choose_lock {
            return Ok(());
        }
        let ghost goal = script_run(self@, out.deep_view(), ctx@);
        if self.script.is_marked(self.script.index()) {
            emit(out, Effect::ClearDelays);
        } else {
            emit(out, Effect::SkipDelays);
        }
        if self.text.is_running {
            self.text.end();
            return Ok(());
        }
        if self.script.index() >= self.script.commands.len() {
            return Ok(());
        }
        match self.script.next_command() {
            None => Ok(()),
            Some(block) => {
                let cmds = block.to_vec();
                let ghost items = cmds.deep_view();
                let mut time: u64 = 0;
                let mut i: usize = 0;
                let ghost whole = block_run(self@, out.deep_view(), items, 0, 0, ctx@);
                while i < cmds.len()
                    invariant
                        i <= cmds.len(),
                        items == cmds.deep_view(),
                        !old(self)@.choose_lock,
                        goal == script_run(old(self)@, old(out).deep_view(), ctx@),
                        whole.error is Some ==> goal == whole,
                        whole == block_run(
                            self@,
                            out.deep_view(),
                            items,
                            i as int,
                            time as nat,
                            ctx@,
                        ),
                    decreases cmds.len() - i,
                {
                    assert(items[i as int] == cmds@[i as int]@);
                    match self.apply_command(cmds[i].clone(), ctx, out) {
                        Ok(ms) => {
                            time = time.saturating_add(ms);
                        },
                        Err(e) => {
                            return Err(e);
                        },
                    }
                    i += 1;
                }
                let total = if ctx.settings.is_wait {
                    ctx.settings.delay.saturating_add(time)
                } else {
                    ctx.settings.delay
                };
                if ctx.settings.is_auto {
                    emit(out, Effect::Auto(total));
                }
                Ok(())
            },
        }
    }

    /// Answers the choice that waits with the text `choice`.
    pub fn execute_choose(&mut self, choice: String, ctx: &Context, out: &mut Vec<Effect>) -> (r:
        Result<(), EngineError>)
        ensures
            done(
                choose_run(old(self)@, old(out).deep_view(), choice@, ctx@),
                final(self)@,
                final(out).deep_view(),
                r,
            ),
    {
        let label = match self.script.get_choice_label(choice.as_str()) {
            Some(l) => (l.0.clone(), l.1.clone()),
            None => {
                return Err(EngineError::UiError);
            },
        };
        self.choose_lock = false;
        self.script.push_backlog(String::new(), choice.clone());
        let none: Vec<String> = Vec::new();
        assert(none.deep_view() =~= Seq::<Seq<char>>::empty());
        emit(out, Effect::Choices(none));
        emit(out, Effect::Speaker(String::new()));
        emit(out, Effect::Dialogue(choice));
        if ctx.settings.is_auto {
            emit(out, Effect::Auto(CHOICE_PAUSE));
        }
        self.execute_jump(Jump::Label(label), ctx, out)
    }

    /// Loads the place that a save slot names.
    pub fn execute_load(&mut self, name: String, index: i32, ctx: &Context, out: &mut Vec<Effect>) -> (r:
        Result<(), EngineError>)
        ensures
            done(
                load_run(old(self)@, old(out).deep_view(), name@, index as int, ctx@),
                final(self)@,
                final(out).deep_view(),
                r,
            ),
    {
        if name.as_str().is_empty() {
            return Ok(());
        }
        emit(out, Effect::Screen(PLAY_SCREEN));
        let none: Vec<String> = Vec::new();
        assert(none.deep_view() =~= Seq::<Seq<char>>::empty());
        emit(out, Effect::Choices(none));
        let before = if index > i32::MIN {
            index - 1
        } else {
            index
        };
        match self.execute_jump(Jump::Index((name, before)), ctx, out) {
            Ok(()) => {},
            Err(e) => {
                return Err(e);
            },
        }
        self.execute_script(ctx, out)
    }

    /// Shows the lines of the backlog that are on display.
    pub fn execute_backlog(&self, out: &mut Vec<Effect>)
        ensures
            final(out).deep_view() == old(out).deep_view().push(
                EffectView::Backlog(
                    backlog_window(self@.script.backlog, self@.script.backlog_offset),
                ),
            ),
    {
        emit(out, Effect::Backlog(self.script.backlog_entries()));
    }

    /// Scrolls the backlog by `offset` lines and shows it.
    pub fn execute_backlog_change(&mut self, offset: i32, out: &mut Vec<Effect>)
        ensures
            final(self)@ == (ExecutorView {
                script: ScriptView {
                    backlog_offset: scrolled(
                        old(self)@.script.backlog_offset,
                        offset as int,
                        max_backlog_offset(old(self)@.script.backlog.len()),
                    ),
                    ..old(self)@.script
                },
                ..old(self)@
            }),
            final(out).deep_view() == old(out).deep_view().push(
                EffectView::Backlog(
                    backlog_window(final(self)@.script.backlog, final(self)@.script.backlog_offset),
                ),
            ),
    {
        self.script.set_offset(offset);
        self.execute_backlog(out);
    }

    /// Closes the backlog and loads the place that one of its lines names.
    pub fn execute_backlog_jump(
        &mut self,
        name: String,
        index: i32,
        ctx: &Context,
        out: &mut Vec<Effect>,
    ) -> (r: Result<(), EngineError>)
        ensures
            done(
                load_run(
                    old(self)@,
                    old(out).deep_view().push(EffectView::BacklogClosed),
                    name@,
                    index as int,
                    ctx@,
                ),
                final(self)@,
                final(out).deep_view(),
                r,
            ),
    {
        emit(out, Effect::BacklogClosed);
        self.execute_load(name, index, ctx, out)
    }

    /// The auto-play control was used. Switching on (`source`) sets the
    /// first timer and flips the switch; switching off flips the switch if
    /// auto-play is shown as on, and shows it as off.
    pub fn execute_auto(&self, source: bool, ctx: &Context, out: &mut Vec<Effect>)
        ensures
            final(out).deep_view() == if source {
                old(out).deep_view().push(EffectView::Auto(FIRST_PAUSE)).push(
                    EffectView::ToggleAuto,
                )
            } else if ctx@.settings.is_auto {
                old(out).deep_view().push(EffectView::ToggleAuto).push(EffectView::AutoOff)
            } else {
                old(out).deep_view().push(EffectView::AutoOff)
            },
    {
        if source {
            emit(out, Effect::Auto(FIRST_PAUSE));
            emit(out, Effect::ToggleAuto);
        } else {
            if ctx.settings.is_auto {
                emit(out, Effect::ToggleAuto);
            }
            emit(out, Effect::AutoOff);
        }
    }

    /// The fast-forward control was used. Switching on (`source`) flips the
    /// switch; switching off flips it if fast-forward is shown as on, and
    /// shows it as off.
    pub fn execute_skip(&self, source: bool, ctx: &Context, out: &mut Vec<Effect>)
        ensures
            final(out).deep_view() == if source {
                old(out).deep_view().push(EffectView::ToggleSkip)
            } else if ctx@.settings.is_skip {
                old(out).deep_view().push(EffectView::ToggleSkip).push(EffectView::SkipOff)
            } else {
                old(out).deep_view().push(EffectView::SkipOff)
            },
    {
        if source {
            emit(out, Effect::ToggleSkip);
        } else {
            if ctx.settings.is_skip {
                emit(out, Effect::ToggleSkip);
            }
            emit(out, Effect::SkipOff);
        }
    }

    /// What a save slot holds for the place where the script stands, shown
    /// with the picture at `image_path`.
    pub fn save_data(&self, image_path: String) -> (r: SaveData)
        ensures
            r.script@ == self@.script.name,
            r.block_index == self@.script.current_block,
            r.explain@ == self@.script.explain,
            r.image_path == image_path,
    {
        SaveData::new(
            self.script.name.clone(),
            self.script.current_block,
            self.script.explain.clone(),
            image_path,
        )
    }

    /// Saves the place where the script stands into slot `index` of the
    /// slots `items`: returns the slots as they are to be written, the slot
    /// `index` with the place and the picture at `image_path`, every other
    /// slot as it was. An index that names no slot changes none.
    pub fn execute_save(&self, index: i32, items: Vec<SaveData>, image_path: String) -> (r: Vec<
        SaveData,
    >)
        ensures
            r.len() == items.len(),
            forall|i: int|
                0 <= i < r.len() && i != index ==> (#[trigger] r@[i]) == items@[i],
            0 <= index < items.len() ==> {
                &&& r@[index as int].script@ == self@.script.name
                &&& r@[index as int].block_index == self@.script.current_block
                &&& r@[index as int].explain@ == self@.script.explain
                &&& r@[index as int].image_path == image_path
            },
    {
        let mut items = items;
        if index >= 0 && (index as usize) < items.len() {
            let slot = self.save_data(image_path);
            items.set(index as usize, slot);
        }
        items
    }
}

/// While a choice waits for its answer, a step of the script changes
/// neither the cursor nor anything else, and asks for nothing.
pub proof fn lemma_locked_step_is_idle(st: ExecutorView, log: Seq<EffectView>, ctx: ContextView)
    requires
        st.choose_lock,
    ensures
        script_run(st, log, ctx).state == st,
        script_run(st, log, ctx).state.script.current_block == st.script.current_block,
        script_run(st, log, ctx).log == log,
        script_run(st, log, ctx).error is None,
{
}

/// Whether `before` is the start of `after`.
pub open spec fn starts_with<T>(after: Seq<T>, before: Seq<T>) -> bool {
    before.len() <= after.len() && after.take(before.len() as int) == before
}

/// Showing figures changes nothing of the state.
pub proof fn lemma_show_all_keeps_state(
    st: ExecutorView,
    log: Seq<EffectView>,
    figs: Seq<CommandView>,
    i: int,
)
    ensures
        show_all_run(st, log, figs, i).state == st,
    decreases figs.len() - i,
{
    if 0 <= i < figs.len() {
        let r = show_fg_run(st, log, figs[i]);
        if r.error is None {
            lemma_show_all_keeps_state(st, r.log, figs, i + 1);
        }
    }
}

/// A choice starts to wait exactly when a choice command is applied: any
/// other command leaves the lock as it is.
pub proof fn lemma_lock_is_set_by_choices(
    st: ExecutorView,
    log: Seq<EffectView>,
    cmd: CommandView,
    ctx: ContextView,
)
    ensures
        apply_run(st, log, cmd, ctx).state.choose_lock == (st.choose_lock || (cmd is Choice
            && overlays_run(st, log).error is None)),
{
    if st.script.pre_figures is Some {
        lemma_show_all_keeps_state(
            ExecutorView { script: without_overlays(st.script), ..st },
            overlays_run(st, log).log,
            figure_commands(st.script.pre_figures->0),
            0,
        );
        let with_bg = match st.script.pre_bg {
            Some(bg) => log.push(EffectView::Background(bg)),
            None => log,
        };
        let with_bgm = match st.script.pre_bgm {
            PreBgmView::Play(b) => with_bg.push(EffectView::PlayBgm(b)),
            PreBgmView::Stop => with_bg.push(EffectView::StopBgm),
            PreBgmView::Keep => with_bg,
        };
        lemma_show_all_keeps_state(
            ExecutorView { script: without_overlays(st.script), ..st },
            with_bgm,
            figure_commands(st.script.pre_figures->0),
            0,
        );
    }
}

/// Answering a choice ends the wait, whether the jump that follows succeeds or not.
pub proof fn lemma_answer_ends_the_wait(
    st: ExecutorView,
    log: Seq<EffectView>,
    choice: Seq<char>,
    ctx: ContextView,
)
    requires
        lookup(st.script.choices, choice) is Some,
    ensures
        !choose_run(st, log, choice, ctx).state.choose_lock,
{
}

/// Applying a command never takes a line out of the backlog: what the
/// backlog held before is the start of what it holds after, also across a
/// jump to another script.
pub proof fn lemma_backlog_grows(
    st: ExecutorView,
    log: Seq<EffectView>,
    cmd: CommandView,
    ctx: ContextView,
)
    ensures
        starts_with(apply_run(st, log, cmd, ctx).state.script.backlog, st.script.backlog),
{
    let o = overlays_run(st, log);
    let cleared = ExecutorView { script: without_overlays(st.script), ..st };
    if st.script.pre_figures is Some {
        let with_bg = match st.script.pre_bg {
            Some(bg) => log.push(EffectView::Background(bg)),
            None => log,
        };
        let with_bgm = match st.script.pre_bgm {
            PreBgmView::Play(b) => with_bg.push(EffectView::PlayBgm(b)),
            PreBgmView::Stop => with_bg.push(EffectView::StopBgm),
            PreBgmView::Keep => with_bg,
        };
        lemma_show_all_keeps_state(cleared, with_bgm, figure_commands(st.script.pre_figures->0), 0);
    }
    assert(o.state == cleared);
    let b = st.script.backlog;
    assert(b.take(b.len() as int) =~= b);
    let after = apply_run(st, log, cmd, ctx).state.script.backlog;
    if o.error is None {
        match cmd {
            CommandView::Choice(prompt, _) => {
                assert(after.take(b.len() as int) =~= b);
            },
            CommandView::Dialogue { speaker, text } => {
                assert(after.take(b.len() as int) =~= b);
            },
            _ => {},
        }
    }
}

/// The rounds of a repeated gesture: the move after `n` more rounds.
pub open spec fn rounds(mv: CommandView, n: nat) -> CommandView
    decreases n,
{
    if n == 0 {
        mv
    } else {
        rounds(mv, (n - 1) as nat).repeated()
    }
}

/// A gesture that is to be made a number of times comes to its last round:
/// a move with `repeat` at least 1 has, after `repeat - 1` more rounds,
/// the repeat 1, with which it is not handed on again.
pub proof fn lemma_gesture_ends(mv: CommandView, n: nat)
    requires
        mv is Move,
        mv->Move_repeat >= 1,
        n < mv->Move_repeat,
    ensures
        rounds(mv, n) is Move,
        rounds(mv, n)->Move_repeat == mv->Move_repeat - n,
        rounds(mv, n)->Move_action == mv->Move_action,
    decreases n,
{
    if n > 0 {
        lemma_gesture_ends(mv, (n - 1) as nat);
    }
}

} // verus!
