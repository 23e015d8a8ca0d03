//! The script compiler: from line-oriented text to blocks of commands, with the
//! indexes of labels, choices, music, backgrounds and figures.
//!
//! A script is a list of paragraphs separated by blank lines. Each line of a
//! paragraph is a directive (`@name argument`), a version line (`%version n`),
//! a comment (`#...`) or a line of dialogue (a speaker followed by text in
//! double quotation marks `“` and `”`). A paragraph that yields commands
//! becomes one block; blocks are numbered from 0 in the order of the text.

use crate::assoc::{put, upsert};
use crate::command::{Command, CommandView, Commands, Label, LabelView, ParserError,
    ParserErrorView, block_of};
use crate::overlay::declare;
use crate::script::{Script, ScriptView, latest_body_and_face, marks, slot_key};
use crate::text::{chars_of, parse_decimal, parse_usize, same_chars, split_all, split_at_each,
    split_once, split_once_at, string_of, subvec, trim, trimmed, parts_view};
use vstd::prelude::*;
use vstd::string::StringExecFns;

verus! {

/// The version of the script language that the compiler accepts.
pub const VERSION: usize = 1;

/// The quotation mark that opens the text of a line of dialogue.
pub const OPEN_QUOTE: char = '\u{201c}';

/// The quotation mark that closes the text of a line of dialogue.
pub const CLOSE_QUOTE: char = '\u{201d}';

/// The lines of a paragraph: each with its number in the text, counted from 1.
pub type Lines = Seq<(nat, Seq<char>)>;

/// What a line does to the compilation of its paragraph.
pub ghost enum Step {
    /// The next line of the paragraph is read.
    Next(ScriptView, Seq<CommandView>),
    /// The paragraph ends here; what is left of it is not read.
    Done(ScriptView, Seq<CommandView>),
    /// The script does not compile.
    Fail(ScriptView, ParserErrorView),
}

/// The label that a target without a label segment refers to.
pub open spec fn start_label() -> Seq<char> {
    "start"@
}

/// The script and label that the target text `arg` refers to in the script
/// `current`. A target is `script:label`; without a colon it is a script. An
/// empty script segment is the current script, an empty or missing label
/// segment is the label `start`.
pub open spec fn resolve_target(arg: Seq<char>, current: Seq<char>) -> LabelView {
    match split_once(arg, ':') {
        Some((name, label)) => (
            if name.len() == 0 {
                current
            } else {
                name
            },
            if label.len() == 0 {
                start_label()
            } else {
                label
            },
        ),
        None => (arg, start_label()),
    }
}

/// The text of a target: the script, a colon, the label.
pub open spec fn target_text(target: LabelView) -> Seq<char> {
    target.0 + seq![':'] + target.1
}

/// The message of a choice that cannot be read.
pub open spec fn invalid_choice(line: Seq<char>) -> Seq<char> {
    "Invalid choice: "@ + line
}

/// The figure command that the fields `parts` of an `fg` directive describe.
pub open spec fn figure_of(parts: Seq<Seq<char>>) -> CommandView
    recommends
        parts.len() >= 5,
{
    CommandView::Figure {
        name: trim(parts[0]),
        distance: trim(parts[1]),
        body: trim(parts[2]),
        face: trim(parts[3]),
        position: trim(parts[4]),
        delay: if parts.len() > 5 {
            Some(trim(parts[5]))
        } else {
            None
        },
    }
}

/// What the figure index records for the figure directive `figure` of block
/// `index`, which stands in the slot `key`. A figure without a body takes
/// the body last shown in its slot, and keeps its face unless it names
/// none: then it takes the face last shown there. It is recorded without
/// its delay. A figure with a body is recorded as it is, unless it has a
/// delay: then nothing is recorded.
pub open spec fn figure_snapshot(
    figures: Seq<(nat, Seq<(Seq<char>, CommandView)>)>,
    index: nat,
    key: Seq<char>,
    figure: CommandView,
) -> Option<CommandView> {
    match figure {
        CommandView::Figure { name, distance, body, face, position, delay } => {
            let shown = latest_body_and_face(figures, index, key);
            if body.len() == 0 {
                Some(
                    CommandView::Figure {
                        name,
                        distance,
                        body: shown.0,
                        face: if face.len() == 0 {
                            shown.1
                        } else {
                            face
                        },
                        position,
                        delay: None,
                    },
                )
            } else if delay is Some {
                None
            } else {
                Some(figure)
            }
        },
        _ => None,
    }
}

/// Whether a `clear` of `distance` and `position` wipes every figure.
pub open spec fn clears_all(distance: Seq<char>, position: Seq<char>) -> bool {
    distance == "All"@ && position == "All"@
}

/// The script with a `clear` of `distance` and `position` compiled into the
/// block under construction: a clear of everything marks the block.
pub open spec fn with_clear(doc: ScriptView, distance: Seq<char>, position: Seq<char>) -> ScriptView {
    if clears_all(distance, position) {
        ScriptView { clear: doc.clear.insert(doc.commands.len()), ..doc }
    } else {
        doc
    }
}

/// Reads `count` options from line `from` of the paragraph on. Each is a
/// choice text, a space and a target; it is added to the options of the
/// directive and to the choices of the script.
pub open spec fn read_options(
    doc: ScriptView,
    lines: Lines,
    from: int,
    count: nat,
    options: Seq<(Seq<char>, LabelView)>,
) -> (ScriptView, Result<Seq<(Seq<char>, LabelView)>, ParserErrorView>)
    decreases count,
{
    if count == 0 {
        (doc, Ok(options))
    } else if from < 0 || from >= lines.len() {
        (doc, Err(ParserErrorView::ChooseError(invalid_choice(Seq::empty()))))
    } else {
        match split_once(lines[from].1, ' ') {
            None => (doc, Err(ParserErrorView::ChooseError(invalid_choice(lines[from].1)))),
            Some((choice, target)) => {
                let label = resolve_target(target, doc.name);
                read_options(
                    ScriptView { choices: upsert(doc.choices, choice, label), ..doc },
                    lines,
                    from + 1,
                    (count - 1) as nat,
                    upsert(options, choice, label),
                )
            },
        }
    }
}

/// What the directive on line `i` of the paragraph does. `rest` is the line
/// without its `@`.
pub open spec fn directive_step(
    doc: ScriptView,
    lines: Lines,
    i: int,
    acc: Seq<CommandView>,
) -> Step {
    let number = lines[i].0;
    let rest = lines[i].1.skip(1);
    let index = doc.commands.len();
    match split_once(rest, ' ') {
        None => Step::Fail(doc, ParserErrorView::InvalidCommand { line: number, content: rest }),
        Some((word, arg)) => {
            if word == "bg"@ {
                Step::Next(
                    ScriptView { backgrounds: declare(doc.backgrounds, index, arg), ..doc },
                    acc.push(CommandView::SetBackground(arg)),
                )
            } else if word == "bgm"@ {
                Step::Next(
                    ScriptView { bgms: declare(doc.bgms, index, arg), ..doc },
                    acc.push(CommandView::PlayBgm(arg)),
                )
            } else if word == "choose"@ {
                match parse_decimal(arg, usize::MAX as nat) {
                    None => Step::Fail(
                        doc,
                        ParserErrorView::InvalidCommand { line: number, content: rest },
                    ),
                    Some(count) => {
                        let read = read_options(doc, lines, i + 1, count, Seq::empty());
                        match read.1 {
                            Ok(options) => Step::Done(
                                read.0,
                                acc.push(CommandView::Choice(Seq::empty(), options)),
                            ),
                            Err(e) => Step::Fail(read.0, e),
                        }
                    },
                }
            } else if word == "voice"@ {
                match split_once(arg, '|') {
                    Some((name, voice)) => Step::Next(
                        doc,
                        acc.push(CommandView::PlayVoice { name, voice }),
                    ),
                    None => Step::Fail(doc, ParserErrorView::TooShort),
                }
            } else if word == "fg"@ {
                let parts = split_all(arg, '|');
                if parts.len() < 5 {
                    Step::Fail(doc, ParserErrorView::TooShort)
                } else {
                    let figure = figure_of(parts);
                    let key = slot_key(trim(parts[1]), trim(parts[4]));
                    let recorded = match figure_snapshot(doc.figures, index, key, figure) {
                        Some(s) => doc.with_figure(index, key, s),
                        None => doc,
                    };
                    Step::Next(recorded, acc.push(figure))
                }
            } else if word == "clear"@ {
                match split_once(arg, '|') {
                    Some((distance, position)) => Step::Next(
                        with_clear(doc, distance, position),
                        acc.push(CommandView::Clear(distance, position)),
                    ),
                    None => if arg == "All"@ {
                        Step::Next(with_clear(doc, arg, arg), acc.push(CommandView::Clear(arg, arg)))
                    } else {
                        Step::Fail(
                            doc,
                            ParserErrorView::InvalidCommand { line: number, content: rest },
                        )
                    },
                }
            } else if word == "jump"@ {
                Step::Next(doc, acc.push(CommandView::Jump(resolve_target(arg, doc.name))))
            } else if word == "label"@ {
                Step::Next(
                    ScriptView { labels: upsert(doc.labels, arg, index as usize), ..doc },
                    acc.push(CommandView::Label(arg)),
                )
            } else {
                Step::Fail(doc, ParserErrorView::InvalidCommand { line: number, content: rest })
            }
        },
    }
}

/// What line `i` of the paragraph does, by the first form that it has: a
/// directive, a version line, a comment, a line of dialogue.
pub open spec fn line_step(doc: ScriptView, lines: Lines, i: int, acc: Seq<CommandView>) -> Step {
    let number = lines[i].0;
    let line = lines[i].1;
    if line.len() > 0 && line[0] == '@' {
        directive_step(doc, lines, i, acc)
    } else if line.len() > 0 && line[0] == '%' {
        let rest = line.skip(1);
        match split_once(rest, ' ') {
            None => Step::Fail(
                doc,
                ParserErrorView::InvalidCommand { line: number, content: rest },
            ),
            Some((word, arg)) => if word == "version"@ {
                if parse_decimal(arg, usize::MAX as nat) == Some(VERSION as nat) {
                    Step::Next(doc, acc)
                } else {
                    Step::Fail(
                        doc,
                        ParserErrorView::UnSupportedVersion { need: VERSION as nat, indeed: arg },
                    )
                }
            } else {
                Step::Fail(doc, ParserErrorView::UnknownLine { line: number, content: rest })
            },
        }
    } else if line.len() > 0 && line[0] == '#' {
        Step::Next(doc, acc)
    } else {
        match split_once(line, OPEN_QUOTE) {
            Some((speaker, quoted)) => if quoted.len() > 0 && quoted.last() == CLOSE_QUOTE {
                Step::Done(
                    doc,
                    acc.push(
                        CommandView::Dialogue {
                            speaker: trim(speaker),
                            text: trim(quoted.drop_last()),
                        },
                    ),
                )
            } else {
                Step::Fail(
                    doc,
                    ParserErrorView::MalformedDialogue { line: number, content: line },
                )
            },
            None => Step::Fail(doc, ParserErrorView::UnknownLine { line: number, content: line }),
        }
    }
}

/// The lines of the paragraph from `i` on, read one after the other.
pub open spec fn run_lines(doc: ScriptView, lines: Lines, i: int, acc: Seq<CommandView>) -> Step
    decreases lines.len() - i,
{
    if i < 0 || i >= lines.len() {
        Step::Done(doc, acc)
    } else {
        match line_step(doc, lines, i, acc) {
            Step::Next(d, a) => run_lines(d, lines, i + 1, a),
            other => other,
        }
    }
}

/// The script with the block of the commands `items` at its end; no block for
/// no commands.
pub open spec fn with_block(doc: ScriptView, items: Seq<CommandView>) -> ScriptView {
    if items.len() == 0 {
        doc
    } else {
        ScriptView { commands: doc.commands.push(block_of(items)), ..doc }
    }
}

/// The script after the paragraph `lines` was compiled, and the error if it
/// did not compile.
pub open spec fn block_result(doc: ScriptView, lines: Lines) -> (ScriptView, Option<ParserErrorView>) {
    match run_lines(doc, lines, 0, Seq::empty()) {
        Step::Fail(d, e) => (d, Some(e)),
        Step::Done(d, items) => (with_block(d, items), None),
        Step::Next(d, items) => (with_block(d, items), None),
    }
}

/// The script after the paragraph gathered so far was compiled; an empty
/// paragraph changes nothing.
pub open spec fn close_paragraph(doc: ScriptView, para: Lines) -> Result<ScriptView, ParserErrorView> {
    if para.len() == 0 {
        Ok(doc)
    } else {
        match block_result(doc, para).1 {
            None => Ok(block_result(doc, para).0),
            Some(e) => Err(e),
        }
    }
}

/// The raw lines of the text from `i` on, compiled: a blank line closes the
/// paragraph, any other line joins it, trimmed and numbered.
pub open spec fn compile_from(
    doc: ScriptView,
    raw: Seq<Seq<char>>,
    i: int,
    para: Lines,
) -> Result<ScriptView, ParserErrorView>
    decreases raw.len() - i,
{
    if i < 0 || i >= raw.len() {
        close_paragraph(doc, para)
    } else {
        let line = trim(raw[i]);
        if line.len() == 0 {
            match close_paragraph(doc, para) {
                Ok(d) => compile_from(d, raw, i + 1, Seq::empty()),
                Err(e) => Err(e),
            }
        } else {
            compile_from(doc, raw, i + 1, para.push(((i + 1) as nat, line)))
        }
    }
}

/// The script named `name` that the text compiles to, or why it does not compile.
pub open spec fn compile(name: Seq<char>, text: Seq<char>) -> Result<ScriptView, ParserErrorView> {
    compile_from(ScriptView::named(name), split_all(text, '\n'), 0, Seq::empty())
}

/// The model of the lines of a paragraph.
pub open spec fn lines_view(lines: Seq<(usize, String)>) -> Lines {
    Seq::new(lines.len(), |i: int| (lines[i].0 as nat, lines[i].1@))
}

/// The script `doc` with the compiled content of `compiled`: its blocks and
/// its indexes.
pub open spec fn with_compiled(doc: ScriptView, compiled: ScriptView) -> ScriptView {
    ScriptView {
        commands: compiled.commands,
        bgms: compiled.bgms,
        backgrounds: compiled.backgrounds,
        figures: compiled.figures,
        clear: compiled.clear,
        choices: compiled.choices,
        labels: compiled.labels,
        ..doc
    }
}

/// How the reading of a paragraph goes on after a line.
pub enum Flow {
    Next,
    Done,
    Fail(ParserError),
}

/// The step that the flow `flow` stands for, with the script and the commands
/// as they are after the line.
pub open spec fn step_of(flow: Flow, doc: ScriptView, acc: Seq<CommandView>) -> Step {
    match flow {
        Flow::Next => Step::Next(doc, acc),
        Flow::Done => Step::Done(doc, acc),
        Flow::Fail(e) => Step::Fail(doc, e@),
    }
}

/// Whether `v` spells the word `word`.
fn is_word(v: &Vec<char>, word: &str) -> (r: bool)
    ensures
        r == (v@ == word@),
{
    let w = chars_of(word);
    same_chars(v, &w)
}

/// Adds a command to the commands of the block under construction.
fn push_command(acc: &mut Vec<Command>, command: Command)
    ensures
        final(acc).deep_view() == old(acc).deep_view().push(command@),
{
    let ghost before = acc.deep_view();
    let ghost added = command@;
    acc.push(command);
    assert(acc.deep_view() =~= before.push(added));
}

/// The script and label that the target text `arg` refers to in the script `current`.
pub fn resolve(arg: &Vec<char>, current: &str) -> (r: Label)
    ensures
        r.deep_view() == resolve_target(arg@, current@),
{
    match split_once_at(arg, ':') {
        Some((name, label)) => {
            let script = if name.len() == 0 {
                String::from_str(current)
            } else {
                string_of(&name)
            };
            let target = if label.len() == 0 {
                String::from_str("start")
            } else {
                string_of(&label)
            };
            (script, target)
        },
        None => (string_of(arg), String::from_str("start")),
    }
}

/// The text of a target: its script, a colon, its label.
pub fn target_string(target: &Label) -> (r: String)
    ensures
        r@ == target_text(target.deep_view()),
{
    let mut r = target.0.clone();
    proof {
        reveal_strlit(":");
        assert(":"@ =~= seq![':']);
    }
    r.append(":");
    r.append(target.1.as_str());
    r
}

/// A target with a label, written as text and read again, is the same
/// target: provided that its script holds no colon, and that it names a
/// script or is read in a script without a name.
pub proof fn lemma_target_round_trip(target: LabelView, current: Seq<char>)
    requires
        target.0.len() > 0 || current.len() == 0,
        target.1.len() > 0,
        !target.0.contains(':'),
    ensures
        resolve_target(target_text(target), current) == target,
{
    let text = target_text(target);
    let n = target.0.len() as int;
    assert forall|j: int| 0 <= j < n implies text[j] != ':' by {
        assert(text[j] == target.0[j]);
        assert(target.0.contains(target.0[j]));
    }
    assert(text[n] == ':');
    crate::text::lemma_first_index_is(text, ':', n);
    assert(text.take(n) =~= target.0);
    assert(text.skip(n + 1) =~= target.1);
    if n == 0 {
        assert(current =~= target.0);
    }
}

/// Reading a target gives the same script and label again when its text is
/// written out and read once more in the same script, whatever shorthand the
/// first text used: provided that the script it names holds no colon, and
/// that it names a script or is read in a script without a name.
pub proof fn lemma_resolve_stable(arg: Seq<char>, current: Seq<char>)
    requires
        resolve_target(arg, current).0.len() > 0 || current.len() == 0,
        !resolve_target(arg, current).0.contains(':'),
    ensures
        resolve_target(target_text(resolve_target(arg, current)), current) == resolve_target(
            arg,
            current,
        ),
{
    reveal_strlit("start");
    crate::text::lemma_first_index_bounds(arg, ':');
    lemma_target_round_trip(resolve_target(arg, current), current);
}

impl Command {
    /// What the figure index records for this figure directive of block
    /// `index`, which stands in the slot at `dis` and `pos`; nothing for a
    /// command that is no figure.
    pub fn latest_fg(&self, index: usize, dis: &str, pos: &str, script: &Script) -> (r: Option<
        Command,
    >)
        ensures
            r.deep_view() == figure_snapshot(
                script@.figures,
                index as nat,
                slot_key(dis@, pos@),
                self@,
            ),
    {
        match self {
            Command::Figure { name, distance, body, face, position, delay } => {
                if body.as_str().is_empty() {
                    let shown = script.find_latest_fg(index, dis, pos);
                    let own = if face.as_str().is_empty() {
                        shown.1
                    } else {
                        face.clone()
                    };
                    Some(
                        Command::Figure {
                            name: name.clone(),
                            distance: distance.clone(),
                            body: shown.0,
                            face: own,
                            position: position.clone(),
                            delay: None,
                        },
                    )
                } else if delay.is_some() {
                    None
                } else {
                    Some(self.clone())
                }
            },
            _ => None,
        }
    }
}

/// Marking a block adds it to the marked blocks.
proof fn lemma_marks_push(v: Seq<usize>, x: usize)
    ensures
        marks(v.push(x)) == marks(v).insert(x as nat),
{
    let a = marks(v.push(x));
    let b = marks(v).insert(x as nat);
    assert forall|k: nat| a.contains(k) <==> b.contains(k) by {
        if a.contains(k) {
            let i = choose|i: int| 0 <= i < v.push(x).len() && v.push(x)[i] as nat == k;
            if i < v.len() {
                assert(v[i] as nat == k);
            }
        }
        if b.contains(k) {
            if k == x as nat {
                assert(v.push(x)[v.len() as int] as nat == k);
            } else {
                let i = choose|i: int| 0 <= i < v.len() && v[i] as nat == k;
                assert(v.push(x)[i] as nat == k);
            }
        }
    }
    assert(a =~= b);
}

impl Script {
    /// Compiles a `clear` of `distance` and `position` into the block under
    /// construction.
    fn compile_clear(&mut self, distance: Vec<char>, position: Vec<char>, acc: &mut Vec<Command>)
        ensures
            final(self)@ == with_clear(old(self)@, distance@, position@),
            final(acc).deep_view() == old(acc).deep_view().push(
                CommandView::Clear(distance@, position@),
            ),
    {
        if is_word(&distance, "All") && is_word(&position, "All") {
            let index = self.commands.len();
            proof {
                lemma_marks_push(self.clear@, index);
            }
            self.clear.push(index);
            assert(self@.clear =~= old(self)@.clear.insert(index as nat));
        }
        push_command(acc, Command::Clear(string_of(&distance), string_of(&position)));
    }

    /// Reads the options of a `choose` directive from line `from` on.
    fn compile_options(&mut self, lines: &Vec<(usize, String)>, from: usize, count: usize) -> (r:
        Result<Vec<(String, Label)>, ParserError>)
        requires
            from <= lines.len(),
        ensures
            ({
                let read = read_options(
                    old(self)@,
                    lines_view(lines@),
                    from as int,
                    count as nat,
                    Seq::empty(),
                );
                &&& final(self)@ == read.0
                &&& match r {
                    Ok(options) => read.1 == Ok::<
                        Seq<(Seq<char>, LabelView)>,
                        ParserErrorView,
                    >(options.deep_view()),
                    Err(e) => read.1 == Err::<Seq<(Seq<char>, LabelView)>, ParserErrorView>(e@),
                }
            }),
    {
        let mut options: Vec<(String, Label)> = Vec::new();
        let mut pos: usize = from;
        let mut left: usize = count;
        let ghost para = lines_view(lines@);
        let ghost goal = read_options(old(self)@, para, from as int, count as nat, Seq::empty());
        assert(options.deep_view() =~= Seq::empty());
        while left > 0
            invariant
                pos <= lines.len(),
                para == lines_view(lines@),
                goal == read_options(old(self)@, para, from as int, count as nat, Seq::empty()),
                goal == read_options(self@, para, pos as int, left as nat, options.deep_view()),
            decreases left,
        {
            if pos >= lines.len() {
                proof {
                    reveal_strlit("Invalid choice: ");
                }
                let message = String::from_str("Invalid choice: ");
                assert(message@ =~= invalid_choice(Seq::empty()));
                return Err(ParserError::ChooseError(message));
            }
            let line = chars_of(lines[pos].1.as_str());
            assert(para[pos as int].1 == line@);
            match split_once_at(&line, ' ') {
                None => {
                    let mut message = String::from_str("Invalid choice: ");
                    message.append(lines[pos].1.as_str());
                    return Err(ParserError::ChooseError(message));
                },
                Some((choice, target)) => {
                    let label = resolve(&target, self.name.as_str());
                    let key = string_of(&choice);
                    let second = (label.0.clone(), label.1.clone());
                    put(&mut options, key.clone(), second);
                    put(&mut self.choices, key, label);
                    pos = pos + 1;
                    left = left - 1;
                },
            }
        }
        Ok(options)
    }

    /// Compiles the `fg` directive with the argument `arg`.
    fn compile_figure(&mut self, arg: &Vec<char>, acc: &mut Vec<Command>) -> (flow: Flow)
        ensures
            ({
                let doc = old(self)@;
                let parts = split_all(arg@, '|');
                let index = doc.commands.len();
                if parts.len() < 5 {
                    step_of(flow, final(self)@, final(acc).deep_view()) == Step::Fail(
                        doc,
                        ParserErrorView::TooShort,
                    )
                } else {
                    let figure = figure_of(parts);
                    let key = slot_key(trim(parts[1]), trim(parts[4]));
                    let recorded = match figure_snapshot(doc.figures, index, key, figure) {
                        Some(s) => doc.with_figure(index, key, s),
                        None => doc,
                    };
                    step_of(flow, final(self)@, final(acc).deep_view()) == Step::Next(
                        recorded,
                        old(acc).deep_view().push(figure),
                    )
                }
            }),
    {
        let parts = split_at_each(arg, '|');
        if parts.len() < 5 {
            return Flow::Fail(ParserError::TooShort);
        }
        let ghost fields = split_all(arg@, '|');
        assert(forall|k: int| 0 <= k < parts.len() ==> parts_view(parts@)[k] == parts@[k]@);
        let name = string_of(&trimmed(&parts[0]));
        let distance = string_of(&trimmed(&parts[1]));
        let body = string_of(&trimmed(&parts[2]));
        let face = string_of(&trimmed(&parts[3]));
        let position = string_of(&trimmed(&parts[4]));
        let delay = if parts.len() > 5 {
            Some(string_of(&trimmed(&parts[5])))
        } else {
            None
        };
        let slot_distance = distance.clone();
        let slot_position = position.clone();
        let command = Command::Figure { name, distance, body, face, position, delay };
        assert(command@ == figure_of(fields));
        let index = self.commands.len();
        let snapshot = command.latest_fg(
            index,
            slot_distance.as_str(),
            slot_position.as_str(),
            self,
        );
        match snapshot {
            Some(s) => {
                self.update_figures(index, slot_distance.as_str(), slot_position.as_str(), s);
            },
            None => {},
        }
        push_command(acc, command);
        Flow::Next
    }

    /// Compiles the directive on line `i` of the paragraph.
    fn compile_directive(
        &mut self,
        lines: &Vec<(usize, String)>,
        i: usize,
        rest: &Vec<char>,
        acc: &mut Vec<Command>,
    ) -> (flow: Flow)
        requires
            i < lines.len(),
            rest@ == lines@[i as int].1@.skip(1),
        ensures
            step_of(flow, final(self)@, final(acc).deep_view()) == directive_step(
                old(self)@,
                lines_view(lines@),
                i as int,
                old(acc).deep_view(),
            ),
    {
        let number = lines[i].0;
        let ghost para = lines_view(lines@);
        assert(para[i as int] == (number as nat, lines@[i as int].1@));
        let index = self.commands.len();
        match split_once_at(rest, ' ') {
            None => Flow::Fail(
                ParserError::InvalidCommand { line: number, content: string_of(rest) },
            ),
            Some((word, arg)) => {
                if is_word(&word, "bg") {
                    self.backgrounds.set(index, string_of(&arg));
                    push_command(acc, Command::SetBackground(string_of(&arg)));
                    Flow::Next
                } else if is_word(&word, "bgm") {
                    self.bgms.set(index, string_of(&arg));
                    push_command(acc, Command::PlayBgm(string_of(&arg)));
                    Flow::Next
                } else if is_word(&word, "choose") {
                    match parse_usize(&arg) {
                        None => Flow::Fail(
                            ParserError::InvalidCommand { line: number, content: string_of(rest) },
                        ),
                        Some(count) => {
                            match self.compile_options(lines, i + 1, count) {
                                Ok(options) => {
                                    push_command(acc, Command::Choice((String::new(), options)));
                                    Flow::Done
                                },
                                Err(e) => Flow::Fail(e),
                            }
                        },
                    }
                } else if is_word(&word, "voice") {
                    match split_once_at(&arg, '|') {
                        Some((name, voice)) => {
                            push_command(
                                acc,
                                Command::PlayVoice {
                                    name: string_of(&name),
                                    voice: string_of(&voice),
                                },
                            );
                            Flow::Next
                        },
                        None => Flow::Fail(ParserError::TooShort),
                    }
                } else if is_word(&word, "fg") {
                    self.compile_figure(&arg, acc)
                } else if is_word(&word, "clear") {
                    match split_once_at(&arg, '|') {
                        Some((distance, position)) => {
                            self.compile_clear(distance, position, acc);
                            Flow::Next
                        },
                        None => {
                            if is_word(&arg, "All") {
                                let again = subvec(&arg, 0, arg.len());
                                assert(again@ =~= arg@);
                                self.compile_clear(arg, again, acc);
                                Flow::Next
                            } else {
                                Flow::Fail(
                                    ParserError::InvalidCommand {
                                        line: number,
                                        content: string_of(rest),
                                    },
                                )
                            }
                        },
                    }
                } else if is_word(&word, "jump") {
                    let target = resolve(&arg, self.name.as_str());
                    push_command(acc, Command::Jump(target));
                    Flow::Next
                } else if is_word(&word, "label") {
                    put(&mut self.labels, string_of(&arg), index);
                    push_command(acc, Command::Label(string_of(&arg)));
                    Flow::Next
                } else {
                    Flow::Fail(
                        ParserError::InvalidCommand { line: number, content: string_of(rest) },
                    )
                }
            },
        }
    }

    /// Compiles line `i` of the paragraph.
    fn compile_line(&mut self, lines: &Vec<(usize, String)>, i: usize, acc: &mut Vec<Command>) -> (flow:
        Flow)
        requires
            i < lines.len(),
        ensures
            step_of(flow, final(self)@, final(acc).deep_view()) == line_step(
                old(self)@,
                lines_view(lines@),
                i as int,
                old(acc).deep_view(),
            ),
    {
        let number = lines[i].0;
        let ghost para = lines_view(lines@);
        assert(para[i as int] == (number as nat, lines@[i as int].1@));
        let line = chars_of(lines[i].1.as_str());
        if line.len() > 0 && line[0] == '@' {
            let rest = subvec(&line, 1, line.len());
            assert(rest@ =~= line@.skip(1));
            self.compile_directive(lines, i, &rest, acc)
        } else if line.len() > 0 && line[0] == '%' {
            let rest = subvec(&line, 1, line.len());
            assert(rest@ =~= line@.skip(1));
            match split_once_at(&rest, ' ') {
                None => Flow::Fail(
                    ParserError::InvalidCommand { line: number, content: string_of(&rest) },
                ),
                Some((word, arg)) => {
                    if is_word(&word, "version") {
                        let version = parse_usize(&arg);
                        if version.is_some() && version.unwrap() == VERSION {
                            Flow::Next
                        } else {
                            Flow::Fail(
                                ParserError::UnSupportedVersion {
                                    need: VERSION,
                                    indeed: string_of(&arg),
                                },
                            )
                        }
                    } else {
                        Flow::Fail(
                            ParserError::UnknownLine { line: number, content: string_of(&rest) },
                        )
                    }
                },
            }
        } else if line.len() > 0 && line[0] == '#' {
            Flow::Next
        } else {
            match split_once_at(&line, OPEN_QUOTE) {
                Some((speaker, quoted)) => {
                    let n = quoted.len();
                    if n > 0 && quoted[n - 1] == CLOSE_QUOTE {
                        let said = subvec(&quoted, 0, n - 1);
                        assert(said@ =~= quoted@.drop_last());
                        push_command(
                            acc,
                            Command::Dialogue {
                                speaker: string_of(&trimmed(&speaker)),
                                text: string_of(&trimmed(&said)),
                            },
                        );
                        Flow::Done
                    } else {
                        Flow::Fail(
                            ParserError::MalformedDialogue {
                                line: number,
                                content: string_of(&line),
                            },
                        )
                    }
                },
                None => Flow::Fail(
                    ParserError::UnknownLine { line: number, content: string_of(&line) },
                ),
            }
        }
    }

    /// Compiles one paragraph, given as its lines with their numbers, and adds
    /// its block, if it yields commands, as the next block of the script.
    /// After an error the script holds what the lines before the failing one
    /// have written into its indexes, and no new block.
    pub fn parse_block(&mut self, lines: &Vec<(usize, String)>) -> (r: Result<(), ParserError>)
        ensures
            final(self)@ == block_result(old(self)@, lines_view(lines@)).0,
            match r {
                Ok(()) => block_result(old(self)@, lines_view(lines@)).1 is None,
                Err(e) => block_result(old(self)@, lines_view(lines@)).1 == Some(e@),
            },
    {
        let mut acc: Vec<Command> = Vec::new();
        let mut i: usize = 0;
        let ghost para = lines_view(lines@);
        let ghost goal = run_lines(old(self)@, para, 0, Seq::empty());
        assert(acc.deep_view() =~= Seq::empty());
        while i < lines.len()
            invariant_except_break
                goal == run_lines(self@, para, i as int, acc.deep_view()),
            invariant
                i <= lines.len(),
                para == lines_view(lines@),
                goal == run_lines(old(self)@, para, 0, Seq::empty()),
            ensures
                goal == Step::Done(self@, acc.deep_view()),
            decreases lines.len() - i,
        {
            let flow = self.compile_line(lines, i, &mut acc);
            match flow {
                Flow::Next => {
                    i += 1;
                },
                Flow::Done => {
                    break ;
                },
                Flow::Fail(e) => {
                    return Err(e);
                },
            }
        }
        let ghost items = acc.deep_view();
        if acc.len() == 1 {
            let only = acc.pop().unwrap();
            assert(only@ == items[0]);
            let ghost before = self.commands.deep_view();
            let block = Commands::OneCmd(only);
            let ghost added = block@;
            self.commands.push(block);
            assert(self.commands.deep_view() =~= before.push(added));
        } else if acc.len() > 1 {
            let ghost before = self.commands.deep_view();
            let block = Commands::VarCmds(acc);
            let ghost added = block@;
            self.commands.push(block);
            assert(self.commands.deep_view() =~= before.push(added));
        }
        Ok(())
    }

    /// Puts the blocks and indexes of the compiled script `compiled` in place
    /// of those that the script held.
    fn take_compiled(&mut self, compiled: Script)
        ensures
            final(self)@ == with_compiled(old(self)@, compiled@),
    {
        self.commands = compiled.commands;
        self.bgms = compiled.bgms;
        self.backgrounds = compiled.backgrounds;
        self.figures = compiled.figures;
        self.clear = compiled.clear;
        self.choices = compiled.choices;
        self.labels = compiled.labels;
    }

    /// Compiles the text of the script and puts its blocks and indexes in
    /// place of those that the script held. A text that does not compile
    /// leaves the script as it was, and the error says why it did not.
    pub fn parse_script(&mut self, text: &str) -> (r: Result<(), ParserError>)
        ensures
            match compile(old(self)@.name, text@) {
                Ok(compiled) => r is Ok && final(self)@ == with_compiled(old(self)@, compiled),
                Err(e) => r is Err && r->Err_0@ == e && final(self)@ == old(self)@,
            },
    {
        match parse_script(text, self.name.as_str()) {
            Ok(compiled) => {
                self.take_compiled(compiled);
                Ok(())
            },
            Err(e) => Err(e),
        }
    }

    /// Names the script and compiles its source text. A text that does not
    /// compile leaves the script as it was, name included, and the error
    /// says why it did not.
    pub fn with_name(&mut self, name: &str, source: &str) -> (r: Result<(), ParserError>)
        ensures
            match compile(name@, source@) {
                Ok(compiled) => r is Ok && final(self)@ == with_compiled(
                    ScriptView { name: name@, ..old(self)@ },
                    compiled,
                ),
                Err(e) => r is Err && r->Err_0@ == e && final(self)@ == old(self)@,
            },
    {
        match parse_script(source, name) {
            Ok(compiled) => {
                self.name = String::from_str(name);
                self.take_compiled(compiled);
                Ok(())
            },
            Err(e) => Err(e),
        }
    }
}

/// Compiles the text of the script named `script_name`.
pub fn parse_script(text: &str, script_name: &str) -> (r: Result<Script, ParserError>)
    ensures
        match r {
            Ok(script) => compile(script_name@, text@) == Ok::<ScriptView, ParserErrorView>(
                script@,
            ),
            Err(e) => compile(script_name@, text@) == Err::<ScriptView, ParserErrorView>(e@),
        },
{
    let mut script = Script::new();
    script.name = String::from_str(script_name);
    assert(script@ == ScriptView::named(script_name@));
    let chars = chars_of(text);
    let raw = split_at_each(&chars, '\n');
    let mut para: Vec<(usize, String)> = Vec::new();
    let mut i: usize = 0;
    let ghost rows = split_all(text@, '\n');
    let ghost goal = compile(script_name@, text@);
    assert(lines_view(para@) =~= Seq::empty());
    while i < raw.len()
        invariant
            i <= raw.len(),
            rows == parts_view(raw@),
            goal == compile(script_name@, text@),
            goal == compile_from(script@, rows, i as int, lines_view(para@)),
        decreases raw.len() - i,
    {
        let line = trimmed(&raw[i]);
        assert(rows[i as int] == raw@[i as int]@);
        if line.len() == 0 {
            if para.len() > 0 {
                match script.parse_block(&para) {
                    Ok(()) => {},
                    Err(e) => {
                        return Err(e);
                    },
                }
                para = Vec::new();
                assert(lines_view(para@) =~= Seq::empty());
            } else {
                assert(lines_view(para@) =~= Seq::empty());
            }
        } else {
            let ghost before = lines_view(para@);
            let entry = (i + 1, string_of(&line));
            para.push(entry);
            assert(lines_view(para@) =~= before.push(((i + 1) as nat, line@)));
        }
        i += 1;
    }
    if para.len() > 0 {
        match script.parse_block(&para) {
            Ok(()) => {},
            Err(e) => {
                return Err(e);
            },
        }
    }
    Ok(script)
}

} // verus!
