//! The closed set of script directives, the blocks they are grouped into, and
//! the errors of script compilation.

use vstd::prelude::*;
use vstd::string::StringExecFns;

verus! {

/// A jump target: the name of a script and the name of a label in it.
pub type Label = (String, String);

/// Mathematical model of a [`Label`].
pub type LabelView = (Seq<char>, Seq<char>);

/// One directive of a script.
#[derive(Debug)]
pub enum Command {
    SetBackground(String),
    PlayBgm(String),
    PlayVoice { name: String, voice: String },
    Dialogue { speaker: String, text: String },
    Figure {
        name: String,
        distance: String,
        body: String,
        face: String,
        position: String,
        delay: Option<String>,
    },
    Move {
        name: String,
        distance: String,
        body: String,
        face: String,
        position: String,
        action: String,
        repeat: i32,
        delay: Option<String>,
    },
    Clear(String, String),
    /// A prompt and the options offered, each a choice text with its target.
    /// No choice text occurs twice.
    Choice((String, Vec<(String, Label)>)),
    Jump(Label),
    Label(String),
    Empty,
}

/// Mathematical model of a [`Command`].
pub ghost enum CommandView {
    SetBackground(Seq<char>),
    PlayBgm(Seq<char>),
    PlayVoice { name: Seq<char>, voice: Seq<char> },
    Dialogue { speaker: Seq<char>, text: Seq<char> },
    Figure {
        name: Seq<char>,
        distance: Seq<char>,
        body: Seq<char>,
        face: Seq<char>,
        position: Seq<char>,
        delay: Option<Seq<char>>,
    },
    Move {
        name: Seq<char>,
        distance: Seq<char>,
        body: Seq<char>,
        face: Seq<char>,
        position: Seq<char>,
        action: Seq<char>,
        repeat: int,
        delay: Option<Seq<char>>,
    },
    Clear(Seq<char>, Seq<char>),
    Choice(Seq<char>, Seq<(Seq<char>, LabelView)>),
    Jump(LabelView),
    Label(Seq<char>),
    Empty,
}

/// The commands compiled from one paragraph of script text.
#[derive(Debug)]
pub enum Commands {
    OneCmd(Command),
    VarCmds(Vec<Command>),
    EmptyCmd,
}

/// Mathematical model of a [`Commands`] block.
pub ghost enum CommandsView {
    OneCmd(CommandView),
    VarCmds(Seq<CommandView>),
    EmptyCmd,
}

impl CommandsView {
    /// The commands of the block, in the order in which they apply.
    pub open spec fn items(self) -> Seq<CommandView> {
        match self {
            CommandsView::OneCmd(c) => seq![c],
            CommandsView::VarCmds(v) => v,
            CommandsView::EmptyCmd => seq![],
        }
    }
}

/// The block that holds the commands `items`: nothing for none, a single
/// command for one, a list for more.
pub open spec fn block_of(items: Seq<CommandView>) -> CommandsView {
    if items.len() == 0 {
        CommandsView::EmptyCmd
    } else if items.len() == 1 {
        CommandsView::OneCmd(items[0])
    } else {
        CommandsView::VarCmds(items)
    }
}

/// Why a script did not compile.
#[derive(Debug)]
pub enum ParserError {
    ChooseError(String),
    InvalidCommand { line: usize, content: String },
    MalformedDialogue { line: usize, content: String },
    UnknownLine { line: usize, content: String },
    UnSupportedVersion { need: usize, indeed: String },
    TooShort,
}

/// Mathematical model of a [`ParserError`].
pub ghost enum ParserErrorView {
    ChooseError(Seq<char>),
    InvalidCommand { line: nat, content: Seq<char> },
    MalformedDialogue { line: nat, content: Seq<char> },
    UnknownLine { line: nat, content: Seq<char> },
    UnSupportedVersion { need: nat, indeed: Seq<char> },
    TooShort,
}

impl View for Command {
    type V = CommandView;

    open spec fn view(&self) -> CommandView {
        match *self {
            Command::SetBackground(s) => CommandView::SetBackground(s@),
            Command::PlayBgm(s) => CommandView::PlayBgm(s@),
            Command::PlayVoice { name, voice } => CommandView::PlayVoice {
                name: name@,
                voice: voice@,
            },
            Command::Dialogue { speaker, text } => CommandView::Dialogue {
                speaker: speaker@,
                text: text@,
            },
            Command::Figure { name, distance, body, face, position, delay } => CommandView::Figure {
                name: name@,
                distance: distance@,
                body: body@,
                face: face@,
                position: position@,
                delay: delay.deep_view(),
            },
            Command::Move {
                name,
                distance,
                body,
                face,
                position,
                action,
                repeat,
                delay,
            } => CommandView::Move {
                name: name@,
                distance: distance@,
                body: body@,
                face: face@,
                position: position@,
                action: action@,
                repeat: repeat as int,
                delay: delay.deep_view(),
            },
            Command::Clear(d, p) => CommandView::Clear(d@, p@),
            Command::Choice(c) => CommandView::Choice(c.0@, c.1.deep_view()),
            Command::Jump(l) => CommandView::Jump(l.deep_view()),
            Command::Label(s) => CommandView::Label(s@),
            Command::Empty => CommandView::Empty,
        }
    }
}

impl DeepView for Command {
    type V = CommandView;

    open spec fn deep_view(&self) -> CommandView {
        self.view()
    }
}

impl View for Commands {
    type V = CommandsView;

    open spec fn view(&self) -> CommandsView {
        match *self {
            Commands::OneCmd(c) => CommandsView::OneCmd(c@),
            Commands::VarCmds(v) => CommandsView::VarCmds(v.deep_view()),
            Commands::EmptyCmd => CommandsView::EmptyCmd,
        }
    }
}

impl DeepView for Commands {
    type V = CommandsView;

    open spec fn deep_view(&self) -> CommandsView {
        self.view()
    }
}

impl View for ParserError {
    type V = ParserErrorView;

    open spec fn view(&self) -> ParserErrorView {
        match *self {
            ParserError::ChooseError(s) => ParserErrorView::ChooseError(s@),
            ParserError::InvalidCommand { line, content } => ParserErrorView::InvalidCommand {
                line: line as nat,
                content: content@,
            },
            ParserError::MalformedDialogue { line, content } => ParserErrorView::MalformedDialogue {
                line: line as nat,
                content: content@,
            },
            ParserError::UnknownLine { line, content } => ParserErrorView::UnknownLine {
                line: line as nat,
                content: content@,
            },
            ParserError::UnSupportedVersion { need, indeed } => ParserErrorView::UnSupportedVersion {
                need: need as nat,
                indeed: indeed@,
            },
            ParserError::TooShort => ParserErrorView::TooShort,
        }
    }
}

/// A copy of an optional string.
pub fn copy_opt(o: &Option<String>) -> (r: Option<String>)
    ensures
        r.deep_view() == o.deep_view(),
{
    match o {
        Some(s) => Some(s.clone()),
        None => None,
    }
}

/// A copy of a label.
pub fn copy_label(l: &Label) -> (r: Label)
    ensures
        r.deep_view() == l.deep_view(),
{
    (l.0.clone(), l.1.clone())
}

/// A copy of a list of options.
pub fn copy_options(v: &Vec<(String, Label)>) -> (r: Vec<(String, Label)>)
    ensures
        r.deep_view() == v.deep_view(),
{
    let mut r: Vec<(String, Label)> = Vec::new();
    let mut i: usize = 0;
    while i < v.len()
        invariant
            i <= v.len(),
            r.len() == i,
            forall|j: int| 0 <= j < i ==> r@[j].deep_view() == v@[j].deep_view(),
        decreases v.len() - i,
    {
        let entry = (v[i].0.clone(), copy_label(&v[i].1));
        r.push(entry);
        i += 1;
    }
    assert(r.deep_view() =~= v.deep_view());
    r
}

/// A copy of a list of commands.
pub fn copy_commands(v: &Vec<Command>) -> (r: Vec<Command>)
    ensures
        r.deep_view() == v.deep_view(),
{
    let mut r: Vec<Command> = Vec::new();
    let mut i: usize = 0;
    while i < v.len()
        invariant
            i <= v.len(),
            r.len() == i,
            forall|j: int| 0 <= j < i ==> r@[j]@ == v@[j]@,
        decreases v.len() - i,
    {
        let c = v[i].clone();
        r.push(c);
        i += 1;
    }
    assert(r.deep_view() =~= v.deep_view());
    r
}

impl Clone for Command {
    fn clone(&self) -> (r: Self)
        ensures
            r@ == self@,
    {
        match self {
            Command::SetBackground(s) => Command::SetBackground(s.clone()),
            Command::PlayBgm(s) => Command::PlayBgm(s.clone()),
            Command::PlayVoice { name, voice } => Command::PlayVoice {
                name: name.clone(),
                voice: voice.clone(),
            },
            Command::Dialogue { speaker, text } => Command::Dialogue {
                speaker: speaker.clone(),
                text: text.clone(),
            },
            Command::Figure { name, distance, body, face, position, delay } => Command::Figure {
                name: name.clone(),
                distance: distance.clone(),
                body: body.clone(),
                face: face.clone(),
                position: position.clone(),
                delay: copy_opt(delay),
            },
            Command::Move {
                name,
                distance,
                body,
                face,
                position,
                action,
                repeat,
                delay,
            } => Command::Move {
                name: name.clone(),
                distance: distance.clone(),
                body: body.clone(),
                face: face.clone(),
                position: position.clone(),
                action: action.clone(),
                repeat: *repeat,
                delay: copy_opt(delay),
            },
            Command::Clear(d, p) => Command::Clear(d.clone(), p.clone()),
            Command::Choice(c) => Command::Choice((c.0.clone(), copy_options(&c.1))),
            Command::Jump(l) => Command::Jump(copy_label(l)),
            Command::Label(s) => Command::Label(s.clone()),
            Command::Empty => Command::Empty,
        }
    }
}

impl Clone for Commands {
    fn clone(&self) -> (r: Self)
        ensures
            r@ == self@,
    {
        match self {
            Commands::OneCmd(c) => Commands::OneCmd(c.clone()),
            Commands::VarCmds(v) => Commands::VarCmds(copy_commands(v)),
            Commands::EmptyCmd => Commands::EmptyCmd,
        }
    }
}

impl Clone for ParserError {
    fn clone(&self) -> (r: Self)
        ensures
            r@ == self@,
    {
        match self {
            ParserError::ChooseError(s) => ParserError::ChooseError(s.clone()),
            ParserError::InvalidCommand { line, content } => ParserError::InvalidCommand {
                line: *line,
                content: content.clone(),
            },
            ParserError::MalformedDialogue { line, content } => ParserError::MalformedDialogue {
                line: *line,
                content: content.clone(),
            },
            ParserError::UnknownLine { line, content } => ParserError::UnknownLine {
                line: *line,
                content: content.clone(),
            },
            ParserError::UnSupportedVersion { need, indeed } => ParserError::UnSupportedVersion {
                need: *need,
                indeed: indeed.clone(),
            },
            ParserError::TooShort => ParserError::TooShort,
        }
    }
}

impl Commands {
    /// The commands of the block, in the order in which they apply.
    pub fn to_vec(&self) -> (r: Vec<Command>)
        ensures
            r.deep_view() == self@.items(),
    {
        match self {
            Commands::OneCmd(c) => {
                let mut r: Vec<Command> = Vec::new();
                r.push(c.clone());
                assert(r.deep_view() =~= seq![c@]);
                r
            },
            Commands::VarCmds(v) => copy_commands(v),
            Commands::EmptyCmd => {
                let r: Vec<Command> = Vec::new();
                assert(r.deep_view() =~= Seq::<CommandView>::empty());
                r
            },
        }
    }
}

impl CommandView {
    /// The delay of a figure or of a move; none for any other command.
    pub open spec fn delay(self) -> Option<Seq<char>> {
        match self {
            CommandView::Figure { delay, .. } => delay,
            CommandView::Move { delay, .. } => delay,
            _ => None,
        }
    }

    /// The action of a move; empty for any other command.
    pub open spec fn action(self) -> Seq<char> {
        match self {
            CommandView::Move { action, .. } => action,
            _ => Seq::empty(),
        }
    }

    /// The command without its delay.
    pub open spec fn without_delay(self) -> CommandView {
        match self {
            CommandView::Figure { name, distance, body, face, position, delay } => CommandView::Figure {
                name,
                distance,
                body,
                face,
                position,
                delay: None,
            },
            CommandView::Move {
                name,
                distance,
                body,
                face,
                position,
                action,
                repeat,
                delay,
            } => CommandView::Move {
                name,
                distance,
                body,
                face,
                position,
                action,
                repeat,
                delay: None,
            },
            other => other,
        }
    }

    /// The move of the same figure with the action `action` and the delay `delay`.
    pub open spec fn moved(self, action: Seq<char>, delay: Seq<char>) -> CommandView {
        match self {
            CommandView::Move { name, distance, body, face, position, repeat, .. } => CommandView::Move {
                name,
                distance,
                body,
                face,
                position,
                action,
                repeat,
                delay: Some(delay),
            },
            other => other,
        }
    }

    /// The next round of a repeated move: one repeat less while more than
    /// one is left, endless otherwise; it waits 301 milliseconds.
    pub open spec fn repeated(self) -> CommandView {
        match self {
            CommandView::Move {
                name,
                distance,
                body,
                face,
                position,
                action,
                repeat,
                ..
            } => CommandView::Move {
                name,
                distance,
                body,
                face,
                position,
                action,
                repeat: if repeat > 1 {
                    repeat - 1
                } else {
                    -1
                },
                delay: Some("301"@),
            },
            other => other,
        }
    }

    /// The figure of this move shown at `position`, after 150 milliseconds.
    pub open spec fn figure_at(self, position: Seq<char>) -> CommandView {
        match self {
            CommandView::Move { name, distance, body, face, .. } => CommandView::Figure {
                name,
                distance,
                body,
                face,
                position,
                delay: Some("150"@),
            },
            other => other,
        }
    }

    /// The move that brings the figure of this move back to rest.
    pub open spec fn back(self) -> CommandView {
        self.moved("back"@, "150"@)
    }

    /// The move that brings the figure of this move back to rest and takes
    /// it off the scene.
    pub open spec fn back_and_clean(self) -> CommandView {
        self.moved("back_and_clean"@, "150"@)
    }
}

impl Command {
    /// The action of a move; empty for any other command.
    pub fn action(&self) -> (r: &str)
        ensures
            r@ == self@.action(),
    {
        match self {
            Command::Move { action, .. } => action.as_str(),
            _ => {
                proof {
                    reveal_strlit("");
                }
                let r = "";
                assert(r@ =~= Seq::<char>::empty());
                r
            },
        }
    }

    /// Takes the delay off a figure or a move; any other command stays as it is.
    pub fn delete_delay(&mut self)
        ensures
            final(self)@ == old(self)@.without_delay(),
    {
        let current: &Command = self;
        let changed = match current {
            Command::Figure { name, distance, body, face, position, .. } => Command::Figure {
                name: name.clone(),
                distance: distance.clone(),
                body: body.clone(),
                face: face.clone(),
                position: position.clone(),
                delay: None,
            },
            Command::Move { name, distance, body, face, position, action, repeat, .. } => Command::Move {
                name: name.clone(),
                distance: distance.clone(),
                body: body.clone(),
                face: face.clone(),
                position: position.clone(),
                action: action.clone(),
                repeat: *repeat,
                delay: None,
            },
            other => other.clone(),
        };
        *self = changed;
    }

    /// The move of the same figure with the action `action` and the delay
    /// `delay`; a command that is no move stays as it is.
    pub fn moved(&self, action: &str, delay: &str) -> (r: Command)
        ensures
            r@ == self@.moved(action@, delay@),
    {
        match self {
            Command::Move { name, distance, body, face, position, repeat, .. } => Command::Move {
                name: name.clone(),
                distance: distance.clone(),
                body: body.clone(),
                face: face.clone(),
                position: position.clone(),
                action: String::from_str(action),
                repeat: *repeat,
                delay: Some(String::from_str(delay)),
            },
            other => other.clone(),
        }
    }

    /// The next round of a repeated move.
    pub fn repeated(&self) -> (r: Command)
        ensures
            r@ == self@.repeated(),
    {
        match self {
            Command::Move { name, distance, body, face, position, action, repeat, .. } => Command::Move {
                name: name.clone(),
                distance: distance.clone(),
                body: body.clone(),
                face: face.clone(),
                position: position.clone(),
                action: action.clone(),
                repeat: if *repeat > 1 {
                    *repeat - 1
                } else {
                    -1
                },
                delay: Some(String::from_str("301")),
            },
            other => other.clone(),
        }
    }

    /// The figure of this move shown at `position`, after 150 milliseconds.
    pub fn figure_at(&self, position: &str) -> (r: Command)
        ensures
            r@ == self@.figure_at(position@),
    {
        match self {
            Command::Move { name, distance, body, face, .. } => Command::Figure {
                name: name.clone(),
                distance: distance.clone(),
                body: body.clone(),
                face: face.clone(),
                position: String::from_str(position),
                delay: Some(String::from_str("150")),
            },
            other => other.clone(),
        }
    }

    /// The move that brings the figure of this move back to rest.
    pub fn back(&self) -> (r: Command)
        ensures
            r@ == self@.back(),
    {
        self.moved("back", "150")
    }

    /// The move that brings the figure of this move back to rest and takes
    /// it off the scene.
    pub fn back_and_clean(&self) -> (r: Command)
        ensures
            r@ == self@.back_and_clean(),
    {
        self.moved("back_and_clean", "150")
    }
}

} // verus!
