//! The document: the compiled blocks of one script with its indexes, the
//! cursor, the overlays that wait for the next render, and the backlog.

use crate::assoc::{get, lookup, put, take_out, upsert, without};
use crate::command::{Command, CommandView, Commands, CommandsView, Label, LabelView};
use crate::overlay::{declare, declared_at, in_force, is_nearest, Overlay};
use crate::text::{byte_prefix, chars_of, prefix_within, string_of};
use vstd::prelude::*;
use vstd::string::StringExecFns;

verus! {

/// Number of backlog entries shown at once.
pub const WINDOW_SIZE: usize = 4;

/// Number of bytes of a line that a save-slot label keeps.
pub const EXPLAIN_BYTES: usize = 18;

/// One line of the backlog.
#[derive(Debug)]
pub struct BackLog {
    /// Who spoke.
    pub front: String,
    /// What was said.
    pub back: String,
    /// The script in which it was said.
    pub script: String,
    /// The cursor at the time: the block after the one that said it.
    pub index: usize,
}

/// Mathematical model of a [`BackLog`] entry.
pub ghost struct BackLogView {
    pub front: Seq<char>,
    pub back: Seq<char>,
    pub script: Seq<char>,
    pub index: nat,
}

impl View for BackLog {
    type V = BackLogView;

    open spec fn view(&self) -> BackLogView {
        BackLogView {
            front: self.front@,
            back: self.back@,
            script: self.script@,
            index: self.index as nat,
        }
    }
}

impl DeepView for BackLog {
    type V = BackLogView;

    open spec fn deep_view(&self) -> BackLogView {
        self.view()
    }
}

impl Clone for BackLog {
    fn clone(&self) -> (r: Self)
        ensures
            r@ == self@,
    {
        BackLog {
            front: self.front.clone(),
            back: self.back.clone(),
            script: self.script.clone(),
            index: self.index,
        }
    }
}

/// What to do with the background music at the next render.
#[derive(Debug)]
pub enum PreBgm {
    /// Leave it as it is.
    Keep,
    /// Start the named track.
    Play(String),
    /// Stop the music.
    Stop,
}

/// Mathematical model of a [`PreBgm`].
pub ghost enum PreBgmView {
    Keep,
    Play(Seq<char>),
    Stop,
}

impl View for PreBgm {
    type V = PreBgmView;

    open spec fn view(&self) -> PreBgmView {
        match *self {
            PreBgm::Keep => PreBgmView::Keep,
            PreBgm::Play(s) => PreBgmView::Play(s@),
            PreBgm::Stop => PreBgmView::Stop,
        }
    }
}

impl Clone for PreBgm {
    fn clone(&self) -> (r: Self)
        ensures
            r@ == self@,
    {
        match self {
            PreBgm::Keep => PreBgm::Keep,
            PreBgm::Play(s) => PreBgm::Play(s.clone()),
            PreBgm::Stop => PreBgm::Stop,
        }
    }
}

/// The key under which a figure is kept: its distance followed by its position.
pub open spec fn slot_key(distance: Seq<char>, position: Seq<char>) -> Seq<char> {
    distance + position
}

/// The figures declared in one block, each under the key of its slot.
#[derive(Debug)]
pub struct Figure(pub Vec<(String, Command)>);

/// Mathematical model of a [`Figure`]: slot keys with the figure shown there.
pub type FigureView = Seq<(Seq<char>, CommandView)>;

impl View for Figure {
    type V = FigureView;

    open spec fn view(&self) -> FigureView {
        self.0.deep_view()
    }
}

impl DeepView for Figure {
    type V = FigureView;

    open spec fn deep_view(&self) -> FigureView {
        self.view()
    }
}

impl Default for Figure {
    fn default() -> (r: Self)
        ensures
            r@ == Seq::<(Seq<char>, CommandView)>::empty(),
    {
        let r = Figure(Vec::new());
        assert(r@ =~= Seq::<(Seq<char>, CommandView)>::empty());
        r
    }
}

impl Clone for Figure {
    fn clone(&self) -> (r: Self)
        ensures
            r@ == self@,
    {
        let mut v: Vec<(String, Command)> = Vec::new();
        let mut i: usize = 0;
        while i < self.0.len()
            invariant
                i <= self.0.len(),
                v.len() == i,
                forall|j: int| 0 <= j < i ==> v@[j].deep_view() == self.0@[j].deep_view(),
            decreases self.0.len() - i,
        {
            let entry = (self.0[i].0.clone(), self.0[i].1.clone());
            v.push(entry);
            i += 1;
        }
        let r = Figure(v);
        assert(r@ =~= self@);
        r
    }
}

/// The key of the slot at `distance` and `position`.
pub fn make_slot_key(distance: &str, position: &str) -> (key: String)
    ensures
        key@ == slot_key(distance@, position@),
{
    let mut key = String::from_str(distance);
    key.append(position);
    key
}

impl Figure {
    /// Shows `command` in the slot at `distance` and `position`, in place of
    /// what was shown there.
    pub fn push(&mut self, distance: &str, position: &str, command: Command)
        ensures
            final(self)@ == upsert(old(self)@, slot_key(distance@, position@), command@),
    {
        let key = make_slot_key(distance, position);
        put(&mut self.0, key, command);
    }

    /// The figures, in the order in which their slots were first filled.
    pub fn commands(&self) -> (r: Vec<Command>)
        ensures
            r.deep_view() == Seq::new(self@.len(), |i: int| self@[i].1),
    {
        let mut r: Vec<Command> = Vec::new();
        let mut i: usize = 0;
        while i < self.0.len()
            invariant
                i <= self.0.len(),
                r.len() == i,
                forall|j: int| 0 <= j < i ==> r@[j]@ == self.0@[j].1@,
            decreases self.0.len() - i,
        {
            r.push(self.0[i].1.clone());
            i += 1;
        }
        assert(r.deep_view() =~= Seq::new(self@.len(), |i: int| self@[i].1));
        r
    }
}

/// The figure shown in a slot at `index`: what the last block at or before
/// `index` that declares that slot shows there.
pub open spec fn latest_slot(
    figures: Seq<(nat, FigureView)>,
    index: nat,
    key: Seq<char>,
) -> Option<(nat, CommandView)>
    decreases figures.len(),
{
    if figures.len() == 0 {
        None
    } else if figures.last().0 <= index && lookup(figures.last().1, key) is Some {
        Some((figures.last().0, lookup(figures.last().1, key)->0))
    } else {
        latest_slot(figures.drop_last(), index, key)
    }
}

/// The body and face of a figure command; empty for any other command.
pub open spec fn body_and_face(c: CommandView) -> (Seq<char>, Seq<char>) {
    match c {
        CommandView::Figure { body, face, .. } => (body, face),
        _ => (Seq::empty(), Seq::empty()),
    }
}

/// The body and face last shown in a slot at `index`; empty where the slot
/// was never filled.
pub open spec fn latest_body_and_face(
    figures: Seq<(nat, FigureView)>,
    index: nat,
    key: Seq<char>,
) -> (Seq<char>, Seq<char>) {
    match latest_slot(figures, index, key) {
        Some(e) => body_and_face(e.1),
        None => (Seq::empty(), Seq::empty()),
    }
}

/// The body of a figure command or, where `face` holds, its face.
pub open spec fn part_of(c: CommandView, face: bool) -> Seq<char> {
    if face {
        body_and_face(c).1
    } else {
        body_and_face(c).0
    }
}

/// Whether `c` is a figure directive for the slot at `distance` and
/// `position` that names a body or, where `face` holds, a face.
pub open spec fn names_part(
    c: CommandView,
    distance: Seq<char>,
    position: Seq<char>,
    face: bool,
) -> bool {
    match c {
        CommandView::Figure { distance: d, position: p, .. } => d == distance && p == position
            && part_of(c, face).len() > 0,
        _ => false,
    }
}

/// The body (or, where `face` holds, the face) that the last figure directive
/// among `items` names for the slot at `distance` and `position`; empty where
/// none names one.
pub open spec fn part_among(
    items: Seq<CommandView>,
    distance: Seq<char>,
    position: Seq<char>,
    face: bool,
) -> Seq<char>
    decreases items.len(),
{
    if items.len() == 0 {
        Seq::empty()
    } else if names_part(items.last(), distance, position, face) {
        part_of(items.last(), face)
    } else {
        part_among(items.drop_last(), distance, position, face)
    }
}

/// The body (or, where `face` holds, the face) that a figure in the slot at
/// `distance` and `position` shows at block `index` where it names none: the
/// one that the nearest figure directive for that slot names, among the
/// directives of the blocks up to block `index`, whether that directive had
/// a delay or not; empty where none names one.
pub open spec fn nearest_part(
    commands: Seq<CommandsView>,
    index: nat,
    distance: Seq<char>,
    position: Seq<char>,
    face: bool,
) -> Seq<char>
    decreases commands.len(),
{
    if commands.len() == 0 {
        Seq::empty()
    } else if commands.len() - 1 <= index && part_among(
        commands.last().items(),
        distance,
        position,
        face,
    ).len() > 0 {
        part_among(commands.last().items(), distance, position, face)
    } else {
        nearest_part(commands.drop_last(), index, distance, position, face)
    }
}

/// The body or face that the command names for the slot, if it names one.
fn part_named(c: &Command, distance: &String, position: &String, face: bool) -> (r: Option<String>)
    ensures
        match r {
            Some(part) => names_part(c@, distance@, position@, face) && part@ == part_of(c@, face),
            None => !names_part(c@, distance@, position@, face),
        },
{
    match c {
        Command::Figure { distance: d, position: p, body, face: shown, .. } => {
            if *d == *distance && *p == *position {
                let part = if face {
                    shown
                } else {
                    body
                };
                if part.as_str().is_empty() {
                    None
                } else {
                    Some(part.clone())
                }
            } else {
                None
            }
        },
        _ => None,
    }
}

/// The body or face that the last figure directive of `v` names for the slot.
fn part_in(v: &Vec<Command>, distance: &String, position: &String, face: bool) -> (r: String)
    ensures
        r@ == part_among(v.deep_view(), distance@, position@, face),
{
    let mut p: usize = v.len();
    let ghost items = v.deep_view();
    assert(items.take(p as int) =~= items);
    while p > 0
        invariant
            p <= v.len(),
            items == v.deep_view(),
            part_among(items, distance@, position@, face) == part_among(
                items.take(p as int),
                distance@,
                position@,
                face,
            ),
        decreases p,
    {
        let ghost cur = items.take(p as int);
        assert(cur.last() == v@[p - 1]@);
        assert(cur.drop_last() =~= items.take(p - 1));
        match part_named(&v[p - 1], distance, position, face) {
            Some(part) => {
                return part;
            },
            None => {},
        }
        p -= 1;
    }
    String::new()
}

/// The body or face that the last figure directive of the block names for the slot.
fn part_in_block(block: &Commands, distance: &String, position: &String, face: bool) -> (r: String)
    ensures
        r@ == part_among(block@.items(), distance@, position@, face),
{
    match block {
        Commands::OneCmd(c) => {
            proof {
                let items = seq![c@];
                assert(items.last() == c@);
                assert(items.drop_last() =~= Seq::<CommandView>::empty());
                assert(part_among(items.drop_last(), distance@, position@, face) =~= Seq::empty());
            }
            match part_named(c, distance, position, face) {
                Some(part) => part,
                None => String::new(),
            }
        },
        Commands::VarCmds(v) => part_in(v, distance, position, face),
        Commands::EmptyCmd => String::new(),
    }
}

/// The blocks marked in `v`.
pub open spec fn marks(v: Seq<usize>) -> Set<nat> {
    Set::new(|k: nat| exists|i: int| 0 <= i < v.len() && v[i] as nat == k)
}

/// The part of the backlog on display: at most [`WINDOW_SIZE`] entries that
/// end `offset` entries before the newest.
pub open spec fn backlog_window(backlog: Seq<BackLogView>, offset: nat) -> Seq<BackLogView> {
    let end = if backlog.len() >= offset {
        backlog.len() - offset
    } else {
        0
    };
    let start = if end >= WINDOW_SIZE {
        end - WINDOW_SIZE
    } else {
        0
    };
    backlog.subrange(start, end)
}

/// The farthest that the backlog of `len` entries can be scrolled back.
pub open spec fn max_backlog_offset(len: nat) -> nat {
    if len >= WINDOW_SIZE {
        (len - WINDOW_SIZE) as nat
    } else {
        0
    }
}

/// `offset` moved by `delta`, kept between 0 and `max`.
pub open spec fn scrolled(offset: nat, delta: int, max: nat) -> nat {
    let moved = if offset + delta < 0 {
        0
    } else {
        offset + delta
    };
    if moved > max {
        max
    } else {
        moved as nat
    }
}

/// The label that a save slot shows for a line: the start of the line, then an ellipsis.
pub open spec fn explain_of(line: Seq<char>) -> Seq<char> {
    byte_prefix(line, EXPLAIN_BYTES as nat) + seq!['.', '.', '.']
}

/// A compiled script and the state of its playback.
#[derive(Debug)]
pub struct Script {
    pub name: String,
    pub explain: String,
    pub backlog_offset: usize,
    pub backlog: Vec<BackLog>,
    pub commands: Vec<Commands>,
    pub current_block: usize,
    pub bgms: Overlay<String>,
    pub current_bgm: String,
    pub pre_bgm: PreBgm,
    pub backgrounds: Overlay<String>,
    pub pre_bg: Option<String>,
    pub figures: Overlay<Figure>,
    pub clear: Vec<usize>,
    pub pre_figures: Option<Figure>,
    pub choices: Vec<(String, Label)>,
    pub labels: Vec<(String, usize)>,
}

/// Mathematical model of a [`Script`].
pub ghost struct ScriptView {
    pub name: Seq<char>,
    pub explain: Seq<char>,
    pub backlog_offset: nat,
    pub backlog: Seq<BackLogView>,
    pub commands: Seq<CommandsView>,
    pub current_block: nat,
    pub bgms: Seq<(nat, Seq<char>)>,
    pub current_bgm: Seq<char>,
    pub pre_bgm: PreBgmView,
    pub backgrounds: Seq<(nat, Seq<char>)>,
    pub pre_bg: Option<Seq<char>>,
    pub figures: Seq<(nat, FigureView)>,
    pub clear: Set<nat>,
    pub pre_figures: Option<FigureView>,
    pub choices: Seq<(Seq<char>, LabelView)>,
    pub labels: Seq<(Seq<char>, usize)>,
}

impl ScriptView {
    /// The block under the cursor, if the cursor stands on one.
    pub open spec fn under_cursor(self) -> Option<CommandsView> {
        if self.current_block < self.commands.len() {
            Some(self.commands[self.current_block as int])
        } else {
            None
        }
    }

    /// The script with the cursor moved on by one block.
    pub open spec fn advanced(self) -> ScriptView {
        ScriptView { current_block: self.current_block + 1, ..self }
    }

    /// The script with the cursor moved on `n` times.
    pub open spec fn advanced_by(self, n: nat) -> ScriptView
        decreases n,
    {
        if n == 0 {
            self
        } else {
            self.advanced_by((n - 1) as nat).advanced()
        }
    }

    /// The model of a script without content.
    pub open spec fn empty() -> ScriptView {
        ScriptView {
            name: Seq::empty(),
            explain: Seq::empty(),
            backlog_offset: 0,
            backlog: Seq::empty(),
            commands: Seq::empty(),
            current_block: 0,
            bgms: Seq::empty(),
            current_bgm: Seq::empty(),
            pre_bgm: PreBgmView::Keep,
            backgrounds: Seq::empty(),
            pre_bg: None,
            figures: Seq::empty(),
            clear: Set::empty(),
            pre_figures: None,
            choices: Seq::empty(),
            labels: Seq::empty(),
        }
    }

    /// The model of a script that has a name and nothing else.
    pub open spec fn named(name: Seq<char>) -> ScriptView {
        ScriptView { name, ..ScriptView::empty() }
    }

    /// The figures of block `index` with `command` shown in the slot `key`.
    pub open spec fn with_figure(
        self,
        index: nat,
        key: Seq<char>,
        command: CommandView,
    ) -> ScriptView {
        let present = match declared_at(self.figures, index) {
            Some(f) => f,
            None => Seq::empty(),
        };
        ScriptView { figures: declare(self.figures, index, upsert(present, key, command)), ..self }
    }

    /// The script after `speaker` and `text` were added to the backlog.
    pub open spec fn with_backlog(self, speaker: Seq<char>, text: Seq<char>) -> ScriptView {
        ScriptView {
            backlog: self.backlog.push(
                BackLogView {
                    front: speaker,
                    back: text,
                    script: self.name,
                    index: self.current_block,
                },
            ),
            ..self
        }
    }
}

impl View for Script {
    type V = ScriptView;

    open spec fn view(&self) -> ScriptView {
        ScriptView {
            name: self.name@,
            explain: self.explain@,
            backlog_offset: self.backlog_offset as nat,
            backlog: self.backlog.deep_view(),
            commands: self.commands.deep_view(),
            current_block: self.current_block as nat,
            bgms: self.bgms@,
            current_bgm: self.current_bgm@,
            pre_bgm: self.pre_bgm@,
            backgrounds: self.backgrounds@,
            pre_bg: self.pre_bg.deep_view(),
            figures: self.figures@,
            clear: marks(self.clear@),
            pre_figures: self.pre_figures.deep_view(),
            choices: self.choices.deep_view(),
            labels: self.labels.deep_view(),
        }
    }
}

/// A copy of a backlog.
pub fn copy_backlog(v: &Vec<BackLog>) -> (r: Vec<BackLog>)
    ensures
        r.deep_view() == v.deep_view(),
{
    let mut r: Vec<BackLog> = Vec::new();
    let mut i: usize = 0;
    while i < v.len()
        invariant
            i <= v.len(),
            r.len() == i,
            forall|j: int| 0 <= j < i ==> r@[j]@ == v@[j]@,
        decreases v.len() - i,
    {
        r.push(v[i].clone());
        i += 1;
    }
    assert(r.deep_view() =~= v.deep_view());
    r
}

impl Script {
    /// A script without name or content, at block 0.
    pub fn new() -> (r: Script)
        ensures
            r@ == ScriptView::empty(),
    {
        let r = Script {
            name: String::new(),
            explain: String::new(),
            backlog_offset: 0,
            backlog: Vec::new(),
            commands: Vec::new(),
            current_block: 0,
            bgms: Overlay::new(),
            current_bgm: String::new(),
            pre_bgm: PreBgm::Keep,
            backgrounds: Overlay::new(),
            pre_bg: None,
            figures: Overlay::new(),
            clear: Vec::new(),
            pre_figures: None,
            choices: Vec::new(),
            labels: Vec::new(),
        };
        proof {
            assert(r@.backlog =~= Seq::empty());
            assert(r@.commands =~= Seq::empty());
            assert(r@.choices =~= Seq::empty());
            assert(r@.labels =~= Seq::empty());
            assert(r@.clear =~= Set::empty());
        }
        r
    }

    /// The block under the cursor, if there is one. The cursor moves on by
    /// one block, also where it stood at or past the end of the script.
    pub fn next_command(&mut self) -> (r: Option<Commands>)
        requires
            old(self)@.current_block < usize::MAX,
        ensures
            final(self)@ == old(self)@.advanced(),
            match r {
                Some(block) => old(self)@.under_cursor() == Some(block@),
                None => old(self)@.under_cursor() is None,
            },
    {
        let block = if self.current_block < self.commands.len() {
            Some(self.commands[self.current_block].clone())
        } else {
            None
        };
        self.current_block = self.current_block + 1;
        block
    }

    /// Sets the save-slot label from a line of text.
    pub fn set_explain(&mut self, explain: &String)
        ensures
            final(self)@ == (ScriptView { explain: explain_of(explain@), ..old(self)@ }),
    {
        let chars = chars_of(explain.as_str());
        let head = prefix_within(&chars, EXPLAIN_BYTES);
        let mut label = string_of(&head);
        proof {
            reveal_strlit("...");
            assert("..."@ =~= seq!['.', '.', '.']);
        }
        label.append("...");
        self.explain = label;
    }

    /// Whether block `index` is marked as one that wipes every figure.
    pub fn is_marked(&self, index: usize) -> (r: bool)
        ensures
            r == self@.clear.contains(index as nat),
    {
        let mut i: usize = 0;
        while i < self.clear.len()
            invariant
                i <= self.clear.len(),
                forall|j: int| 0 <= j < i ==> self.clear@[j] != index,
            decreases self.clear.len() - i,
        {
            if self.clear[i] == index {
                return true;
            }
            i += 1;
        }
        false
    }

    /// Moves the cursor to block `index`.
    pub fn set_index(&mut self, index: usize)
        ensures
            final(self)@ == (ScriptView { current_block: index as nat, ..old(self)@ }),
    {
        self.current_block = index;
    }

    /// The farthest that the backlog can be scrolled back.
    pub fn max_offset(&self) -> (r: usize)
        ensures
            r == max_backlog_offset(self@.backlog.len()),
    {
        self.backlog.len().saturating_sub(WINDOW_SIZE)
    }

    /// Scrolls the backlog by `offset` entries, within what it holds.
    pub fn set_offset(&mut self, offset: i32)
        ensures
            final(self)@ == (ScriptView {
                backlog_offset: scrolled(
                    old(self)@.backlog_offset,
                    offset as int,
                    max_backlog_offset(old(self)@.backlog.len()),
                ),
                ..old(self)@
            }),
    {
        let max = self.max_offset();
        let moved: i128 = self.backlog_offset as i128 + offset as i128;
        let kept: i128 = if moved < 0 {
            0
        } else {
            moved
        };
        if kept > max as i128 {
            self.backlog_offset = max;
        } else {
            self.backlog_offset = kept as usize;
        }
    }

    /// Sets the track that is playing.
    pub fn set_current_bgm(&mut self, bgm: String)
        ensures
            final(self)@ == (ScriptView { current_bgm: bgm@, ..old(self)@ }),
    {
        self.current_bgm = bgm;
    }

    /// Sets what the next render does with the music.
    pub fn set_pre_bgm(&mut self, pre_bgm: PreBgm)
        ensures
            final(self)@ == (ScriptView { pre_bgm: pre_bgm@, ..old(self)@ }),
    {
        self.pre_bgm = pre_bgm;
    }

    /// Sets the background that the next render shows first.
    pub fn set_pre_bg(&mut self, pre_bg: Option<String>)
        ensures
            final(self)@ == (ScriptView { pre_bg: pre_bg.deep_view(), ..old(self)@ }),
    {
        self.pre_bg = pre_bg;
    }

    /// Sets the figures that the next render shows first.
    pub fn set_pre_figures(&mut self, pre_figures: Option<Figure>)
        ensures
            final(self)@ == (ScriptView { pre_figures: pre_figures.deep_view(), ..old(self)@ }),
    {
        self.pre_figures = pre_figures;
    }

    /// Records that block `index` shows `command` in the slot at `distance`
    /// and `position`.
    pub fn update_figures(&mut self, index: usize, distance: &str, position: &str, command: Command)
        ensures
            final(self)@ == old(self)@.with_figure(
                index as nat,
                slot_key(distance@, position@),
                command@,
            ),
    {
        let mut figure = match self.figures.get(index) {
            Some(f) => f.clone(),
            None => Figure::default(),
        };
        figure.push(distance, position, command);
        self.figures.set(index, figure);
    }

    /// Replaces the backlog.
    pub fn set_backlog(&mut self, backlog: Vec<BackLog>)
        ensures
            final(self)@ == (ScriptView { backlog: backlog.deep_view(), ..old(self)@ }),
    {
        self.backlog = backlog;
    }

    /// Adds a line to the backlog, with the script's name and the cursor.
    pub fn push_backlog(&mut self, name: String, text: String)
        ensures
            final(self)@ == old(self)@.with_backlog(name@, text@),
    {
        let entry = BackLog {
            front: name,
            back: text,
            script: self.name.clone(),
            index: self.current_block,
        };
        let ghost before = self.backlog.deep_view();
        let ghost added = entry@;
        self.backlog.push(entry);
        assert(self.backlog.deep_view() =~= before.push(added));
    }

    /// The part of the backlog on display, oldest first: for each entry the
    /// text, the speaker, the cursor and the script.
    pub fn backlog(&self) -> (r: Vec<(String, String, usize, String)>)
        ensures
            r.len() == backlog_window(self@.backlog, self@.backlog_offset).len(),
            forall|i: int|
                0 <= i < r.len() ==> {
                    let e = backlog_window(self@.backlog, self@.backlog_offset)[i];
                    &&& (#[trigger] r@[i]).0@ == e.back
                    &&& r@[i].1@ == e.front
                    &&& r@[i].2 as nat == e.index
                    &&& r@[i].3@ == e.script
                },
    {
        let total = self.backlog.len();
        let end = total.saturating_sub(self.backlog_offset);
        let start = end.saturating_sub(WINDOW_SIZE);
        let mut r: Vec<(String, String, usize, String)> = Vec::new();
        let mut i: usize = start;
        let ghost window = backlog_window(self@.backlog, self@.backlog_offset);
        assert(window == self@.backlog.subrange(start as int, end as int));
        while i < end
            invariant
                start <= i <= end <= self.backlog.len(),
                r.len() == i - start,
                window == self@.backlog.subrange(start as int, end as int),
                forall|j: int|
                    0 <= j < r.len() ==> {
                        let e = window[j];
                        &&& (#[trigger] r@[j]).0@ == e.back
                        &&& r@[j].1@ == e.front
                        &&& r@[j].2 as nat == e.index
                        &&& r@[j].3@ == e.script
                    },
            decreases end - i,
        {
            let entry = &self.backlog[i];
            assert(window[i - start] == self.backlog@[i as int]@);
            r.push((entry.back.clone(), entry.front.clone(), entry.index, entry.script.clone()));
            i += 1;
        }
        r
    }

    /// Gives up the script for its backlog.
    pub fn take_backlog(self) -> (r: Vec<BackLog>)
        ensures
            r.deep_view() == self@.backlog,
    {
        self.backlog
    }

    /// The name of the script.
    pub fn name(&self) -> (r: &str)
        ensures
            r@ == self@.name,
    {
        self.name.as_str()
    }

    /// The cursor: the block that plays next.
    pub fn index(&self) -> (r: usize)
        ensures
            r == self@.current_block,
    {
        self.current_block
    }

    /// The save-slot label.
    pub fn explain(&self) -> (r: &str)
        ensures
            r@ == self@.explain,
    {
        self.explain.as_str()
    }

    /// The track that is playing.
    pub fn current_bgm(&self) -> (r: &str)
        ensures
            r@ == self@.current_bgm,
    {
        self.current_bgm.as_str()
    }

    /// Takes the background that waits for the next render.
    pub fn pre_bg(&mut self) -> (r: Option<String>)
        ensures
            r.deep_view() == old(self)@.pre_bg,
            final(self)@ == (ScriptView { pre_bg: None, ..old(self)@ }),
    {
        self.pre_bg.take()
    }

    /// Takes what the next render is to do with the music.
    pub fn pre_bgm(&mut self) -> (r: PreBgm)
        ensures
            r@ == old(self)@.pre_bgm,
            final(self)@ == (ScriptView { pre_bgm: PreBgmView::Keep, ..old(self)@ }),
    {
        let mut taken = PreBgm::Keep;
        std::mem::swap(&mut self.pre_bgm, &mut taken);
        taken
    }

    /// Takes the figures that wait for the next render.
    pub fn pre_figures(&mut self) -> (r: Option<Figure>)
        ensures
            r.deep_view() == old(self)@.pre_figures,
            final(self)@ == (ScriptView { pre_figures: None, ..old(self)@ }),
    {
        self.pre_figures.take()
    }

    /// The block at which the label `name` was declared.
    pub fn find_label(&self, name: &str) -> (r: Option<usize>)
        ensures
            r == lookup(self@.labels, name@),
    {
        let key = String::from_str(name);
        match get(&self.labels, &key) {
            Some(index) => Some(*index),
            None => None,
        }
    }

    /// The target of the choice with the text `name`.
    pub fn get_choice_label(&self, name: &str) -> (r: Option<&Label>)
        ensures
            r.deep_view() == lookup(self@.choices, name@),
    {
        let key = String::from_str(name);
        get(&self.choices, &key)
    }

    /// The music in force at block `index`: the last declared at or before it.
    pub fn get_bgm(&self, index: usize) -> (r: Option<(usize, &String)>)
        ensures
            match r {
                Some((k, v)) => in_force(self@.bgms, index as nat) == Some((k as nat, v@))
                    && is_nearest(self@.bgms, index as nat, k as nat),
                None => in_force(self@.bgms, index as nat) is None && forall|j: int|
                    0 <= j < self@.bgms.len() ==> self@.bgms[j].0 > index,
            },
    {
        self.bgms.nearest(index)
    }

    /// The background in force at block `index`: the last declared at or before it.
    pub fn get_background(&self, index: usize) -> (r: Option<(usize, &String)>)
        ensures
            match r {
                Some((k, v)) => in_force(self@.backgrounds, index as nat) == Some((k as nat, v@))
                    && is_nearest(self@.backgrounds, index as nat, k as nat),
                None => in_force(self@.backgrounds, index as nat) is None && forall|j: int|
                    0 <= j < self@.backgrounds.len() ==> self@.backgrounds[j].0 > index,
            },
    {
        self.backgrounds.nearest(index)
    }

    /// The figures in force at block `index`: the last declared at or before it.
    pub fn get_figures(&self, index: usize) -> (r: Option<(usize, &Figure)>)
        ensures
            match r {
                Some((k, v)) => in_force(self@.figures, index as nat) == Some((k as nat, v@))
                    && is_nearest(self@.figures, index as nat, k as nat),
                None => in_force(self@.figures, index as nat) is None && forall|j: int|
                    0 <= j < self@.figures.len() ==> self@.figures[j].0 > index,
            },
    {
        self.figures.nearest(index)
    }

    /// Position, among the figure declarations, of the last block at or before
    /// `index` that fills the slot `key`.
    fn latest_slot_position(&self, index: usize, key: &String) -> (r: Option<usize>)
        ensures
            match r {
                Some(p) => p < self@.figures.len() && latest_slot(self@.figures, index as nat, key@)
                    == Some((self@.figures[p as int].0, lookup(self@.figures[p as int].1, key@)->0))
                    && lookup(self@.figures[p as int].1, key@) is Some,
                None => latest_slot(self@.figures, index as nat, key@) is None,
            },
    {
        let mut p: usize = self.figures.len();
        let ghost figs = self@.figures;
        assert(figs.take(p as int) =~= figs);
        while p > 0
            invariant
                p <= figs.len(),
                figs == self@.figures,
                latest_slot(figs, index as nat, key@) == latest_slot(
                    figs.take(p as int),
                    index as nat,
                    key@,
                ),
            decreases p,
        {
            let ghost cur = figs.take(p as int);
            assert(cur.last() == figs[p - 1]);
            assert(cur.drop_last() =~= figs.take(p - 1));
            if self.figures.key_at(p - 1) <= index {
                let figure = self.figures.value_at(p - 1);
                if get(&figure.0, key).is_some() {
                    return Some(p - 1);
                }
            }
            p -= 1;
        }
        None
    }

    /// The body (or, where `face` holds, the face) that a figure in the slot
    /// at `distance` and `position` shows at block `index` where it names
    /// none.
    pub fn find_nearest_part(&self, index: usize, distance: &str, position: &str, face: bool) -> (r:
        String)
        ensures
            r@ == nearest_part(self@.commands, index as nat, distance@, position@, face),
    {
        let dis = String::from_str(distance);
        let pos = String::from_str(position);
        let mut p: usize = self.commands.len();
        let ghost blocks = self@.commands;
        assert(blocks.take(p as int) =~= blocks);
        while p > 0
            invariant
                p <= blocks.len(),
                blocks == self@.commands,
                dis@ == distance@,
                pos@ == position@,
                nearest_part(blocks, index as nat, distance@, position@, face) == nearest_part(
                    blocks.take(p as int),
                    index as nat,
                    distance@,
                    position@,
                    face,
                ),
            decreases p,
        {
            let ghost cur = blocks.take(p as int);
            assert(cur.last() == blocks[p - 1]);
            assert(cur.drop_last() =~= blocks.take(p - 1));
            if p - 1 <= index {
                assert(blocks[p - 1] == self.commands@[p - 1]@);
                let part = part_in_block(&self.commands[p - 1], &dis, &pos, face);
                if !part.as_str().is_empty() {
                    return part;
                }
            }
            p -= 1;
        }
        String::new()
    }

    /// The part of the backlog on display, oldest first.
    pub fn backlog_entries(&self) -> (r: Vec<BackLog>)
        ensures
            r.deep_view() == backlog_window(self@.backlog, self@.backlog_offset),
    {
        let total = self.backlog.len();
        let end = total.saturating_sub(self.backlog_offset);
        let start = end.saturating_sub(WINDOW_SIZE);
        let mut r: Vec<BackLog> = Vec::new();
        let mut i: usize = start;
        let ghost window = backlog_window(self@.backlog, self@.backlog_offset);
        assert(window == self@.backlog.subrange(start as int, end as int));
        while i < end
            invariant
                start <= i <= end <= self.backlog.len(),
                r.len() == i - start,
                window == self@.backlog.subrange(start as int, end as int),
                forall|j: int| 0 <= j < r.len() ==> (#[trigger] r@[j])@ == window[j],
            decreases end - i,
        {
            assert(window[i - start] == self.backlog@[i as int]@);
            r.push(self.backlog[i].clone());
            i += 1;
        }
        assert(r.deep_view() =~= window);
        r
    }

    /// The body and face last shown at or before block `index` in the slot at
    /// `dis` and `pos`; both empty where that slot was never filled.
    pub fn find_latest_fg(&self, index: usize, dis: &str, pos: &str) -> (r: (String, String))
        ensures
            (r.0@, r.1@) == latest_body_and_face(
                self@.figures,
                index as nat,
                slot_key(dis@, pos@),
            ),
    {
        let key = make_slot_key(dis, pos);
        match self.latest_slot_position(index, &key) {
            Some(p) => {
                let figure = self.figures.value_at(p);
                match get(&figure.0, &key) {
                    Some(Command::Figure { body, face, .. }) => (body.clone(), face.clone()),
                    _ => (String::new(), String::new()),
                }
            },
            None => (String::new(), String::new()),
        }
    }

    /// Takes the figure out of the slot at `distance` and `position`, in the
    /// last block at or before `index` that fills that slot.
    pub fn change_figure(&mut self, index: usize, distance: &str, position: &str) -> (r: Option<
        Command,
    >)
        ensures
            match latest_slot(old(self)@.figures, index as nat, slot_key(distance@, position@)) {
                Some(e) => r is Some && r->0@ == e.1 && final(self)@ == (ScriptView {
                    figures: declare(
                        old(self)@.figures,
                        e.0,
                        without(
                            declared_at(old(self)@.figures, e.0)->0,
                            slot_key(distance@, position@),
                        ),
                    ),
                    ..old(self)@
                }),
                None => r is None && final(self)@ == old(self)@,
            },
    {
        let key = make_slot_key(distance, position);
        match self.latest_slot_position(index, &key) {
            Some(p) => {
                let block = self.figures.key_at(p);
                let n = self.figures.len();
                proof {
                    lemma_declared_at_position(self@.figures, p as int);
                }
                let mut figure = self.figures.value_at(p).clone();
                let taken = take_out(&mut figure.0, &key);
                self.figures.set(block, figure);
                taken
            },
            None => None,
        }
    }
}

/// Moving the cursor on block by block visits the blocks in the order in
/// which they were compiled, each once: after `n` moves the cursor stands `n`
/// blocks further, on the block of that index while there is one, and
/// nothing but the cursor has changed.
pub proof fn lemma_replay_in_order(s: ScriptView, n: nat)
    ensures
        s.advanced_by(n) == (ScriptView { current_block: s.current_block + n, ..s }),
        s.advanced_by(n).under_cursor() == if s.current_block + n < s.commands.len() {
            Some(s.commands[(s.current_block + n) as int])
        } else {
            None
        },
    decreases n,
{
    if n > 0 {
        lemma_replay_in_order(s, (n - 1) as nat);
    }
}

/// In a list with increasing blocks, what is declared at the block of an
/// entry is the value of that entry.
pub proof fn lemma_declared_at_position<W>(s: Seq<(nat, W)>, p: int)
    requires
        crate::overlay::increasing(s),
        0 <= p < s.len(),
    ensures
        declared_at(s, s[p].0) == Some(s[p].1),
    decreases s.len(),
{
    if p == s.len() - 1 {
    } else {
        assert(s[p].0 < s[s.len() - 1].0);
        let t = s.drop_last();
        assert(crate::overlay::increasing(t)) by {
            assert forall|i: int, j: int| 0 <= i < j < t.len() implies t[i].0 < t[j].0 by {
                assert(t[i] == s[i] && t[j] == s[j]);
            }
        }
        assert(t[p] == s[p]);
        lemma_declared_at_position(t, p);
    }
}

} // verus!
