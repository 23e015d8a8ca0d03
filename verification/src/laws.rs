//! What holds of every script that compiles: each label is found in the block
//! that its index names, and each declaration of music or of a background
//! stands in the block under which it is kept.

use crate::assoc::{distinct_keys, lemma_lookup_upsert, lemma_upsert_distinct, lookup, upsert};
use crate::command::{CommandView, LabelView, block_of};
use crate::overlay::{declare, in_force, increasing, is_nearest, lemma_declare_increasing,
    lemma_in_force_nearest};
use crate::parser::{Lines, Step, close_paragraph, compile, compile_from,
    directive_step, line_step, read_options, run_lines, with_block, with_clear};
use crate::script::ScriptView;
use crate::text::{split_all, trim};
use vstd::prelude::*;

verus! {

/// Whether the command `c` stands in block `k`: in block `k` of the script,
/// or, where `k` is the block under construction, among its commands `acc`.
pub open spec fn placed(doc: ScriptView, acc: Seq<CommandView>, k: int, c: CommandView) -> bool {
    ||| (0 <= k < doc.commands.len() && doc.commands[k].items().contains(c))
    ||| (k == doc.commands.len() && acc.contains(c))
}

/// Whether every declaration of `s` stands in the block under which it is
/// kept, as the command that `command` makes of its value.
pub open spec fn declarations_placed(
    doc: ScriptView,
    acc: Seq<CommandView>,
    s: Seq<(nat, Seq<char>)>,
    command: spec_fn(Seq<char>) -> CommandView,
) -> bool {
    forall|j: int| 0 <= j < s.len() ==> placed(doc, acc, (#[trigger] s[j]).0 as int, command(s[j].1))
}

/// Whether the indexes of the script agree with its blocks, where `acc` holds
/// the commands of the block under construction:
/// - the index of each label names the block in which the label stands;
/// - music and backgrounds are kept in increasing order of block, each under
///   the block in which it is declared;
/// - figures are kept in increasing order of block, under blocks that exist.
pub open spec fn indexed(doc: ScriptView, acc: Seq<CommandView>) -> bool {
    &&& forall|l: Seq<char>|
        (#[trigger] lookup(doc.labels, l)) is Some ==> placed(
            doc,
            acc,
            lookup(doc.labels, l)->0 as int,
            CommandView::Label(l),
        )
    &&& increasing(doc.bgms)
    &&& declarations_placed(doc, acc, doc.bgms, |v: Seq<char>| CommandView::PlayBgm(v))
    &&& increasing(doc.backgrounds)
    &&& declarations_placed(doc, acc, doc.backgrounds, |v: Seq<char>| CommandView::SetBackground(v))
    &&& increasing(doc.figures)
    &&& forall|j: int|
        0 <= j < doc.figures.len() ==> (#[trigger] doc.figures[j]).0 < doc.commands.len() || (
        doc.figures[j].0 == doc.commands.len() && acc.len() > 0)
}

/// A declaration at a block that no declaration lies beyond stands at the
/// end, in place of one made at the same block.
proof fn lemma_declare_at_end<W>(s: Seq<(nat, W)>, k: nat, w: W)
    requires
        forall|j: int| 0 <= j < s.len() ==> (#[trigger] s[j]).0 <= k,
    ensures
        declare(s, k, w) == if s.len() > 0 && s.last().0 == k {
            s.drop_last().push((k, w))
        } else {
            s.push((k, w))
        },
{
    if s.len() > 0 {
        assert(s[s.len() - 1].0 <= k);
    } else {
        assert(seq![(k, w)] =~= s.push((k, w)));
    }
}

/// A command of the block under construction is still there after another is added.
proof fn lemma_placed_push(doc: ScriptView, acc: Seq<CommandView>, k: int, c: CommandView, added: CommandView)
    requires
        placed(doc, acc, k, c),
    ensures
        placed(doc, acc.push(added), k, c),
{
    if k == doc.commands.len() && acc.contains(c) {
        let i = choose|i: int| 0 <= i < acc.len() && acc[i] == c;
        assert(acc.push(added)[i] == c);
    }
}

/// Adding a command to the block under construction keeps the indexes in
/// agreement with the blocks.
proof fn lemma_indexed_push(doc: ScriptView, acc: Seq<CommandView>, added: CommandView)
    requires
        indexed(doc, acc),
    ensures
        indexed(doc, acc.push(added)),
{
    let a = acc.push(added);
    assert forall|l: Seq<char>| (#[trigger] lookup(doc.labels, l)) is Some implies placed(
        doc,
        a,
        lookup(doc.labels, l)->0 as int,
        CommandView::Label(l),
    ) by {
        lemma_placed_push(doc, acc, lookup(doc.labels, l)->0 as int, CommandView::Label(l), added);
    }
    assert forall|j: int| 0 <= j < doc.bgms.len() implies placed(
        doc,
        a,
        (#[trigger] doc.bgms[j]).0 as int,
        CommandView::PlayBgm(doc.bgms[j].1),
    ) by {
        lemma_placed_push(
            doc,
            acc,
            doc.bgms[j].0 as int,
            CommandView::PlayBgm(doc.bgms[j].1),
            added,
        );
    }
    assert forall|j: int| 0 <= j < doc.backgrounds.len() implies placed(
        doc,
        a,
        (#[trigger] doc.backgrounds[j]).0 as int,
        CommandView::SetBackground(doc.backgrounds[j].1),
    ) by {
        lemma_placed_push(
            doc,
            acc,
            doc.backgrounds[j].0 as int,
            CommandView::SetBackground(doc.backgrounds[j].1),
            added,
        );
    }
}

/// Declaring a value at the block under construction, with its command added
/// to that block, keeps the declarations in their blocks.
proof fn lemma_declare_placed(
    doc: ScriptView,
    acc: Seq<CommandView>,
    s: Seq<(nat, Seq<char>)>,
    v: Seq<char>,
    command: spec_fn(Seq<char>) -> CommandView,
)
    requires
        increasing(s),
        declarations_placed(doc, acc, s, command),
    ensures
        increasing(declare(s, doc.commands.len(), v)),
        forall|j: int|
            0 <= j < declare(s, doc.commands.len(), v).len() ==> placed(
                doc,
                acc.push(command(v)),
                (#[trigger] declare(s, doc.commands.len(), v)[j]).0 as int,
                command(declare(s, doc.commands.len(), v)[j].1),
            ),
{
    let k = doc.commands.len();
    let d = declare(s, k, v);
    let a = acc.push(command(v));
    lemma_declare_increasing(s, k, v);
    assert forall|j: int| 0 <= j < s.len() implies (#[trigger] s[j]).0 <= k by {
        assert(placed(doc, acc, s[j].0 as int, command(s[j].1)));
    }
    lemma_declare_at_end(s, k, v);
    assert(a[acc.len() as int] == command(v));
    assert forall|j: int| 0 <= j < d.len() implies placed(
        doc,
        a,
        (#[trigger] d[j]).0 as int,
        command(d[j].1),
    ) by {
        if j == d.len() - 1 {
            assert(d[j] == (k, v));
        } else {
            assert(d[j] == s[j]);
            lemma_placed_push(doc, acc, s[j].0 as int, command(s[j].1), command(v));
        }
    }
}

/// Reading options changes the choices of the script and nothing else.
proof fn lemma_read_options_frame(
    doc: ScriptView,
    lines: Lines,
    from: int,
    count: nat,
    options: Seq<(Seq<char>, LabelView)>,
)
    ensures
        read_options(doc, lines, from, count, options).0 == (ScriptView {
            choices: read_options(doc, lines, from, count, options).0.choices,
            ..doc
        }),
    decreases count,
{
    if count == 0 {
    } else if from < 0 || from >= lines.len() {
    } else {
        match crate::text::split_once(lines[from].1, ' ') {
            None => {},
            Some((choice, target)) => {
                let label = crate::parser::resolve_target(target, doc.name);
                lemma_read_options_frame(
                    ScriptView { choices: upsert(doc.choices, choice, label), ..doc },
                    lines,
                    from + 1,
                    (count - 1) as nat,
                    upsert(options, choice, label),
                );
            },
        }
    }
}

/// Whether the step leaves the blocks of `doc` as they are and the indexes in
/// agreement with them.
pub open spec fn step_indexed(doc: ScriptView, step: Step) -> bool {
    match step {
        Step::Next(d, a) => indexed(d, a) && d.commands == doc.commands,
        Step::Done(d, a) => indexed(d, a) && d.commands == doc.commands,
        Step::Fail(_, _) => true,
    }
}

/// A change to what `indexed` does not speak of leaves it as it is.
proof fn lemma_indexed_frame(doc: ScriptView, other: ScriptView, acc: Seq<CommandView>)
    requires
        indexed(doc, acc),
        other.commands == doc.commands,
        other.labels == doc.labels,
        other.bgms == doc.bgms,
        other.backgrounds == doc.backgrounds,
        other.figures == doc.figures,
    ensures
        indexed(other, acc),
{
    assert forall|l: Seq<char>| (#[trigger] lookup(other.labels, l)) is Some implies placed(
        other,
        acc,
        lookup(other.labels, l)->0 as int,
        CommandView::Label(l),
    ) by {
        assert(placed(doc, acc, lookup(doc.labels, l)->0 as int, CommandView::Label(l)));
    }
    assert forall|j: int| 0 <= j < other.bgms.len() implies placed(
        other,
        acc,
        (#[trigger] other.bgms[j]).0 as int,
        CommandView::PlayBgm(other.bgms[j].1),
    ) by {
        assert(placed(doc, acc, doc.bgms[j].0 as int, CommandView::PlayBgm(doc.bgms[j].1)));
    }
    assert forall|j: int| 0 <= j < other.backgrounds.len() implies placed(
        other,
        acc,
        (#[trigger] other.backgrounds[j]).0 as int,
        CommandView::SetBackground(other.backgrounds[j].1),
    ) by {
        assert(placed(
            doc,
            acc,
            doc.backgrounds[j].0 as int,
            CommandView::SetBackground(doc.backgrounds[j].1),
        ));
    }
}

/// Declaring a background at the block under construction.
proof fn lemma_step_background(doc: ScriptView, acc: Seq<CommandView>, arg: Seq<char>)
    requires
        indexed(doc, acc),
    ensures
        indexed(
            ScriptView { backgrounds: declare(doc.backgrounds, doc.commands.len(), arg), ..doc },
            acc.push(CommandView::SetBackground(arg)),
        ),
{
    let d = ScriptView { backgrounds: declare(doc.backgrounds, doc.commands.len(), arg), ..doc };
    let c = CommandView::SetBackground(arg);
    lemma_indexed_push(doc, acc, c);
    lemma_declare_placed(
        doc,
        acc,
        doc.backgrounds,
        arg,
        |v: Seq<char>| CommandView::SetBackground(v),
    );
    let a = acc.push(c);
    assert forall|l: Seq<char>| (#[trigger] lookup(d.labels, l)) is Some implies placed(
        d,
        a,
        lookup(d.labels, l)->0 as int,
        CommandView::Label(l),
    ) by {
        assert(placed(doc, a, lookup(doc.labels, l)->0 as int, CommandView::Label(l)));
    }
    assert forall|j: int| 0 <= j < d.bgms.len() implies placed(
        d,
        a,
        (#[trigger] d.bgms[j]).0 as int,
        CommandView::PlayBgm(d.bgms[j].1),
    ) by {
        assert(placed(doc, a, doc.bgms[j].0 as int, CommandView::PlayBgm(doc.bgms[j].1)));
    }
    assert forall|j: int| 0 <= j < d.backgrounds.len() implies placed(
        d,
        a,
        (#[trigger] d.backgrounds[j]).0 as int,
        CommandView::SetBackground(d.backgrounds[j].1),
    ) by {
        assert(placed(
            doc,
            a,
            d.backgrounds[j].0 as int,
            CommandView::SetBackground(d.backgrounds[j].1),
        ));
    }
}

/// Declaring music at the block under construction.
proof fn lemma_step_music(doc: ScriptView, acc: Seq<CommandView>, arg: Seq<char>)
    requires
        indexed(doc, acc),
    ensures
        indexed(
            ScriptView { bgms: declare(doc.bgms, doc.commands.len(), arg), ..doc },
            acc.push(CommandView::PlayBgm(arg)),
        ),
{
    let d = ScriptView { bgms: declare(doc.bgms, doc.commands.len(), arg), ..doc };
    let c = CommandView::PlayBgm(arg);
    lemma_indexed_push(doc, acc, c);
    lemma_declare_placed(doc, acc, doc.bgms, arg, |v: Seq<char>| CommandView::PlayBgm(v));
    let a = acc.push(c);
    assert forall|l: Seq<char>| (#[trigger] lookup(d.labels, l)) is Some implies placed(
        d,
        a,
        lookup(d.labels, l)->0 as int,
        CommandView::Label(l),
    ) by {
        assert(placed(doc, a, lookup(doc.labels, l)->0 as int, CommandView::Label(l)));
    }
    assert forall|j: int| 0 <= j < d.bgms.len() implies placed(
        d,
        a,
        (#[trigger] d.bgms[j]).0 as int,
        CommandView::PlayBgm(d.bgms[j].1),
    ) by {
        assert(placed(doc, a, d.bgms[j].0 as int, CommandView::PlayBgm(d.bgms[j].1)));
    }
    assert forall|j: int| 0 <= j < d.backgrounds.len() implies placed(
        d,
        a,
        (#[trigger] d.backgrounds[j]).0 as int,
        CommandView::SetBackground(d.backgrounds[j].1),
    ) by {
        assert(placed(
            doc,
            a,
            doc.backgrounds[j].0 as int,
            CommandView::SetBackground(doc.backgrounds[j].1),
        ));
    }
}

/// Declaring a label at the block under construction.
proof fn lemma_step_label(doc: ScriptView, acc: Seq<CommandView>, arg: Seq<char>)
    requires
        indexed(doc, acc),
        doc.commands.len() <= usize::MAX,
    ensures
        indexed(
            ScriptView { labels: upsert(doc.labels, arg, doc.commands.len() as usize), ..doc },
            acc.push(CommandView::Label(arg)),
        ),
{
    let index = doc.commands.len() as usize;
    let d = ScriptView { labels: upsert(doc.labels, arg, index), ..doc };
    let c = CommandView::Label(arg);
    let a = acc.push(c);
    lemma_indexed_push(doc, acc, c);
    assert(a[acc.len() as int] == c);
    assert forall|l: Seq<char>| (#[trigger] lookup(d.labels, l)) is Some implies placed(
        d,
        a,
        lookup(d.labels, l)->0 as int,
        CommandView::Label(l),
    ) by {
        lemma_lookup_upsert(doc.labels, arg, index, l);
        if l != arg {
            assert(placed(doc, a, lookup(doc.labels, l)->0 as int, CommandView::Label(l)));
        }
    }
    assert forall|j: int| 0 <= j < d.bgms.len() implies placed(
        d,
        a,
        (#[trigger] d.bgms[j]).0 as int,
        CommandView::PlayBgm(d.bgms[j].1),
    ) by {
        assert(placed(doc, a, doc.bgms[j].0 as int, CommandView::PlayBgm(doc.bgms[j].1)));
    }
    assert forall|j: int| 0 <= j < d.backgrounds.len() implies placed(
        d,
        a,
        (#[trigger] d.backgrounds[j]).0 as int,
        CommandView::SetBackground(d.backgrounds[j].1),
    ) by {
        assert(placed(
            doc,
            a,
            doc.backgrounds[j].0 as int,
            CommandView::SetBackground(doc.backgrounds[j].1),
        ));
    }
}

/// Recording a figure at the block under construction.
proof fn lemma_step_figure(
    doc: ScriptView,
    acc: Seq<CommandView>,
    key: Seq<char>,
    snapshot: CommandView,
    figure: CommandView,
)
    requires
        indexed(doc, acc),
    ensures
        indexed(doc.with_figure(doc.commands.len(), key, snapshot), acc.push(figure)),
{
    let k = doc.commands.len();
    let d = doc.with_figure(k, key, snapshot);
    let a = acc.push(figure);
    lemma_indexed_push(doc, acc, figure);
    let present = match crate::overlay::declared_at(doc.figures, k) {
        Some(f) => f,
        None => Seq::empty(),
    };
    let w = upsert(present, key, snapshot);
    lemma_declare_increasing(doc.figures, k, w);
    lemma_declare_at_end(doc.figures, k, w);
    assert forall|j: int| 0 <= j < d.figures.len() implies (#[trigger] d.figures[j]).0
        < d.commands.len() || (d.figures[j].0 == d.commands.len() && a.len() > 0) by {
        if j < d.figures.len() - 1 {
            assert(d.figures[j] == doc.figures[j]);
        }
    }
    assert forall|l: Seq<char>| (#[trigger] lookup(d.labels, l)) is Some implies placed(
        d,
        a,
        lookup(d.labels, l)->0 as int,
        CommandView::Label(l),
    ) by {
        assert(placed(doc, a, lookup(doc.labels, l)->0 as int, CommandView::Label(l)));
    }
    assert forall|j: int| 0 <= j < d.bgms.len() implies placed(
        d,
        a,
        (#[trigger] d.bgms[j]).0 as int,
        CommandView::PlayBgm(d.bgms[j].1),
    ) by {
        assert(placed(doc, a, doc.bgms[j].0 as int, CommandView::PlayBgm(doc.bgms[j].1)));
    }
    assert forall|j: int| 0 <= j < d.backgrounds.len() implies placed(
        d,
        a,
        (#[trigger] d.backgrounds[j]).0 as int,
        CommandView::SetBackground(d.backgrounds[j].1),
    ) by {
        assert(placed(
            doc,
            a,
            doc.backgrounds[j].0 as int,
            CommandView::SetBackground(doc.backgrounds[j].1),
        ));
    }
}

/// A directive keeps the indexes in agreement with the blocks.
proof fn lemma_directive_indexed(doc: ScriptView, lines: Lines, i: int, acc: Seq<CommandView>)
    requires
        0 <= i < lines.len(),
        indexed(doc, acc),
        doc.commands.len() <= usize::MAX,
    ensures
        step_indexed(doc, directive_step(doc, lines, i, acc)),
{
    let rest = lines[i].1.skip(1);
    let index = doc.commands.len();
    match crate::text::split_once(rest, ' ') {
        None => {},
        Some((word, arg)) => {
            if word == "bg"@ {
                lemma_step_background(doc, acc, arg);
            } else if word == "bgm"@ {
                lemma_step_music(doc, acc, arg);
            } else if word == "choose"@ {
                match crate::text::parse_decimal(arg, usize::MAX as nat) {
                    None => {},
                    Some(count) => {
                        let read = read_options(doc, lines, i + 1, count, Seq::empty());
                        lemma_read_options_frame(doc, lines, i + 1, count, Seq::empty());
                        match read.1 {
                            Ok(options) => {
                                lemma_indexed_frame(doc, read.0, acc);
                                lemma_indexed_push(
                                    read.0,
                                    acc,
                                    CommandView::Choice(Seq::empty(), options),
                                );
                            },
                            Err(_) => {},
                        }
                    },
                }
            } else if word == "voice"@ {
                match crate::text::split_once(arg, '|') {
                    Some((name, voice)) => {
                        lemma_indexed_push(doc, acc, CommandView::PlayVoice { name, voice });
                    },
                    None => {},
                }
            } else if word == "fg"@ {
                let parts = split_all(arg, '|');
                if parts.len() >= 5 {
                    let figure = crate::parser::figure_of(parts);
                    let key = crate::script::slot_key(trim(parts[1]), trim(parts[4]));
                    match crate::parser::figure_snapshot(doc.figures, index, key, figure) {
                        Some(s) => {
                            lemma_step_figure(doc, acc, key, s, figure);
                        },
                        None => {
                            lemma_indexed_push(doc, acc, figure);
                        },
                    }
                }
            } else if word == "clear"@ {
                match crate::text::split_once(arg, '|') {
                    Some((distance, position)) => {
                        lemma_indexed_frame(doc, with_clear(doc, distance, position), acc);
                        lemma_indexed_push(
                            with_clear(doc, distance, position),
                            acc,
                            CommandView::Clear(distance, position),
                        );
                    },
                    None => {
                        if arg == "All"@ {
                            lemma_indexed_frame(doc, with_clear(doc, arg, arg), acc);
                            lemma_indexed_push(
                                with_clear(doc, arg, arg),
                                acc,
                                CommandView::Clear(arg, arg),
                            );
                        }
                    },
                }
            } else if word == "jump"@ {
                lemma_indexed_push(
                    doc,
                    acc,
                    CommandView::Jump(crate::parser::resolve_target(arg, doc.name)),
                );
            } else if word == "label"@ {
                lemma_step_label(doc, acc, arg);
            }
        },
    }
}

/// A line keeps the indexes in agreement with the blocks.
proof fn lemma_line_indexed(doc: ScriptView, lines: Lines, i: int, acc: Seq<CommandView>)
    requires
        0 <= i < lines.len(),
        indexed(doc, acc),
        doc.commands.len() <= usize::MAX,
    ensures
        step_indexed(doc, line_step(doc, lines, i, acc)),
{
    let line = lines[i].1;
    if line.len() > 0 && line[0] == '@' {
        lemma_directive_indexed(doc, lines, i, acc);
    } else if line.len() > 0 && line[0] == '%' {
    } else if line.len() > 0 && line[0] == '#' {
    } else {
        match crate::text::split_once(line, crate::parser::OPEN_QUOTE) {
            Some((speaker, quoted)) => {
                if quoted.len() > 0 && quoted.last() == crate::parser::CLOSE_QUOTE {
                    lemma_indexed_push(
                        doc,
                        acc,
                        CommandView::Dialogue {
                            speaker: trim(speaker),
                            text: trim(quoted.drop_last()),
                        },
                    );
                }
            },
            None => {},
        }
    }
}

/// The lines of a paragraph keep the indexes in agreement with the blocks.
proof fn lemma_run_indexed(doc: ScriptView, lines: Lines, i: int, acc: Seq<CommandView>)
    requires
        0 <= i,
        indexed(doc, acc),
        doc.commands.len() <= usize::MAX,
    ensures
        step_indexed(doc, run_lines(doc, lines, i, acc)),
    decreases lines.len() - i,
{
    if i < lines.len() {
        lemma_line_indexed(doc, lines, i, acc);
        match line_step(doc, lines, i, acc) {
            Step::Next(d, a) => {
                lemma_run_indexed(d, lines, i + 1, a);
            },
            _ => {},
        }
    }
}

/// The commands of the block that holds `items` are `items`.
proof fn lemma_block_items(items: Seq<CommandView>)
    ensures
        block_of(items).items() == items,
{
    if items.len() == 1 {
        assert(seq![items[0]] =~= items);
    } else if items.len() == 0 {
        assert(Seq::<CommandView>::empty() =~= items);
    }
}

/// Closing the block under construction keeps the indexes in agreement with
/// the blocks.
proof fn lemma_with_block_indexed(doc: ScriptView, items: Seq<CommandView>)
    requires
        indexed(doc, items),
    ensures
        indexed(with_block(doc, items), Seq::empty()),
{
    let d = with_block(doc, items);
    let none = Seq::<CommandView>::empty();
    lemma_block_items(items);
    assert forall|k: int, c: CommandView| placed(doc, items, k, c) implies placed(
        d,
        none,
        k,
        c,
    ) by {
        if items.len() > 0 {
            if 0 <= k < doc.commands.len() {
                assert(d.commands[k] == doc.commands[k]);
            } else {
                assert(d.commands[k] == block_of(items));
            }
        } else {
            assert(!items.contains(c));
        }
    }
    assert forall|l: Seq<char>| (#[trigger] lookup(d.labels, l)) is Some implies placed(
        d,
        none,
        lookup(d.labels, l)->0 as int,
        CommandView::Label(l),
    ) by {
        assert(placed(doc, items, lookup(doc.labels, l)->0 as int, CommandView::Label(l)));
    }
    assert forall|j: int| 0 <= j < d.bgms.len() implies placed(
        d,
        none,
        (#[trigger] d.bgms[j]).0 as int,
        CommandView::PlayBgm(d.bgms[j].1),
    ) by {
        assert(placed(doc, items, doc.bgms[j].0 as int, CommandView::PlayBgm(doc.bgms[j].1)));
    }
    assert forall|j: int| 0 <= j < d.backgrounds.len() implies placed(
        d,
        none,
        (#[trigger] d.backgrounds[j]).0 as int,
        CommandView::SetBackground(d.backgrounds[j].1),
    ) by {
        assert(placed(
            doc,
            items,
            doc.backgrounds[j].0 as int,
            CommandView::SetBackground(doc.backgrounds[j].1),
        ));
    }
    assert forall|j: int| 0 <= j < d.figures.len() implies (#[trigger] d.figures[j]).0
        < d.commands.len() || (d.figures[j].0 == d.commands.len() && none.len() > 0) by {
        assert(doc.figures[j].0 < doc.commands.len() || (doc.figures[j].0 == doc.commands.len()
            && items.len() > 0));
    }
}

/// The text from line `i` on keeps the indexes in agreement with the blocks.
proof fn lemma_compile_from_indexed(doc: ScriptView, raw: Seq<Seq<char>>, i: int, para: Lines)
    requires
        0 <= i,
        indexed(doc, Seq::empty()),
        doc.commands.len() + (raw.len() - i) + 1 <= usize::MAX || i >= raw.len(),
        doc.commands.len() < usize::MAX,
    ensures
        match compile_from(doc, raw, i, para) {
            Ok(d) => indexed(d, Seq::empty()),
            Err(_) => true,
        },
    decreases raw.len() - i,
{
    if i >= raw.len() {
        lemma_close_indexed(doc, para);
    } else {
        let line = trim(raw[i]);
        if line.len() == 0 {
            lemma_close_indexed(doc, para);
            match close_paragraph(doc, para) {
                Ok(d) => {
                    lemma_compile_from_indexed(d, raw, i + 1, Seq::empty());
                },
                Err(_) => {},
            }
        } else {
            lemma_compile_from_indexed(doc, raw, i + 1, para.push(((i + 1) as nat, line)));
        }
    }
}

/// Closing a paragraph keeps the indexes in agreement with the blocks, and
/// adds one block at most.
proof fn lemma_close_indexed(doc: ScriptView, para: Lines)
    requires
        indexed(doc, Seq::empty()),
        doc.commands.len() < usize::MAX,
    ensures
        match close_paragraph(doc, para) {
            Ok(d) => indexed(d, Seq::empty()) && d.commands.len() <= doc.commands.len() + 1,
            Err(_) => true,
        },
{
    if para.len() > 0 {
        lemma_run_indexed(doc, para, 0, Seq::empty());
        match run_lines(doc, para, 0, Seq::empty()) {
            Step::Fail(_, _) => {},
            Step::Done(d, items) => {
                lemma_with_block_indexed(d, items);
            },
            Step::Next(d, items) => {
                lemma_with_block_indexed(d, items);
            },
        }
    }
}

/// Whether every label that stands in a block is known, under an index that
/// lies at or after that block, and every label of the block under
/// construction `acc` is known under the index of that block.
pub open spec fn labels_known(doc: ScriptView, acc: Seq<CommandView>) -> bool {
    &&& forall|k: int, l: Seq<char>|
        0 <= k < doc.commands.len() && #[trigger] doc.commands[k].items().contains(
            CommandView::Label(l),
        ) ==> lookup(doc.labels, l) is Some && lookup(doc.labels, l)->0 >= k
    &&& forall|l: Seq<char>| #[trigger]
        acc.contains(CommandView::Label(l)) ==> lookup(doc.labels, l) == Some(
            doc.commands.len() as usize,
        )
}

/// Whether the script keeps no label and no choice text twice, and knows
/// every label of its blocks and of the block under construction `acc`.
pub open spec fn registered(doc: ScriptView, acc: Seq<CommandView>) -> bool {
    &&& distinct_keys(doc.labels)
    &&& distinct_keys(doc.choices)
    &&& labels_known(doc, acc)
}

/// Whether the step leaves the blocks of `doc` as they are and the labels
/// and choices registered.
pub open spec fn step_registered(doc: ScriptView, step: Step) -> bool {
    match step {
        Step::Next(d, a) => registered(d, a) && d.commands == doc.commands,
        Step::Done(d, a) => registered(d, a) && d.commands == doc.commands,
        Step::Fail(_, _) => true,
    }
}

/// A command that is no label, added to the block under construction,
/// leaves the labels and choices registered, whatever else changes but the
/// blocks and the labels.
proof fn lemma_registered_push(
    doc: ScriptView,
    other: ScriptView,
    acc: Seq<CommandView>,
    added: CommandView,
)
    requires
        registered(doc, acc),
        other.commands == doc.commands,
        other.labels == doc.labels,
        distinct_keys(other.choices),
        !(added is Label),
    ensures
        registered(other, acc.push(added)),
{
    let a = acc.push(added);
    assert forall|l: Seq<char>| #[trigger] a.contains(CommandView::Label(l)) implies lookup(
        other.labels,
        l,
    ) == Some(other.commands.len() as usize) by {
        let j = choose|j: int| 0 <= j < a.len() && a[j] == CommandView::Label(l);
        assert(j < acc.len());
        assert(acc[j] == CommandView::Label(l));
        assert(acc.contains(CommandView::Label(l)));
    }
}

/// Declaring a label at the block under construction leaves the labels and
/// choices registered.
proof fn lemma_registered_label(doc: ScriptView, acc: Seq<CommandView>, arg: Seq<char>)
    requires
        registered(doc, acc),
        doc.commands.len() <= usize::MAX,
    ensures
        registered(
            ScriptView { labels: upsert(doc.labels, arg, doc.commands.len() as usize), ..doc },
            acc.push(CommandView::Label(arg)),
        ),
{
    let index = doc.commands.len() as usize;
    let d = ScriptView { labels: upsert(doc.labels, arg, index), ..doc };
    let a = acc.push(CommandView::Label(arg));
    lemma_upsert_distinct(doc.labels, arg, index);
    assert forall|k: int, l: Seq<char>|
        0 <= k < d.commands.len() && #[trigger] d.commands[k].items().contains(
            CommandView::Label(l),
        ) implies lookup(d.labels, l) is Some && lookup(d.labels, l)->0 >= k by {
        lemma_lookup_upsert(doc.labels, arg, index, l);
        assert(doc.commands[k].items().contains(CommandView::Label(l)));
    }
    assert forall|l: Seq<char>| #[trigger] a.contains(CommandView::Label(l)) implies lookup(
        d.labels,
        l,
    ) == Some(d.commands.len() as usize) by {
        lemma_lookup_upsert(doc.labels, arg, index, l);
        let j = choose|j: int| 0 <= j < a.len() && a[j] == CommandView::Label(l);
        if j < acc.len() {
            assert(acc[j] == CommandView::Label(l));
            assert(acc.contains(CommandView::Label(l)));
        }
    }
}

/// Reading options keeps the choice texts of the script distinct.
proof fn lemma_read_options_choices(
    doc: ScriptView,
    lines: Lines,
    from: int,
    count: nat,
    options: Seq<(Seq<char>, LabelView)>,
)
    requires
        distinct_keys(doc.choices),
    ensures
        distinct_keys(read_options(doc, lines, from, count, options).0.choices),
    decreases count,
{
    if count == 0 {
    } else if from < 0 || from >= lines.len() {
    } else {
        match crate::text::split_once(lines[from].1, ' ') {
            None => {},
            Some((choice, target)) => {
                let label = crate::parser::resolve_target(target, doc.name);
                lemma_upsert_distinct(doc.choices, choice, label);
                lemma_read_options_choices(
                    ScriptView { choices: upsert(doc.choices, choice, label), ..doc },
                    lines,
                    from + 1,
                    (count - 1) as nat,
                    upsert(options, choice, label),
                );
            },
        }
    }
}

/// A directive leaves the labels and choices registered.
proof fn lemma_directive_registered(doc: ScriptView, lines: Lines, i: int, acc: Seq<CommandView>)
    requires
        0 <= i < lines.len(),
        registered(doc, acc),
        doc.commands.len() <= usize::MAX,
    ensures
        step_registered(doc, directive_step(doc, lines, i, acc)),
{
    let rest = lines[i].1.skip(1);
    let index = doc.commands.len();
    match crate::text::split_once(rest, ' ') {
        None => {},
        Some((word, arg)) => {
            if word == "bg"@ {
                lemma_registered_push(
                    doc,
                    ScriptView { backgrounds: declare(doc.backgrounds, index, arg), ..doc },
                    acc,
                    CommandView::SetBackground(arg),
                );
            } else if word == "bgm"@ {
                lemma_registered_push(
                    doc,
                    ScriptView { bgms: declare(doc.bgms, index, arg), ..doc },
                    acc,
                    CommandView::PlayBgm(arg),
                );
            } else if word == "choose"@ {
                match crate::text::parse_decimal(arg, usize::MAX as nat) {
                    None => {},
                    Some(count) => {
                        let read = read_options(doc, lines, i + 1, count, Seq::empty());
                        lemma_read_options_frame(doc, lines, i + 1, count, Seq::empty());
                        lemma_read_options_choices(doc, lines, i + 1, count, Seq::empty());
                        match read.1 {
                            Ok(options) => {
                                lemma_registered_push(
                                    doc,
                                    read.0,
                                    acc,
                                    CommandView::Choice(Seq::empty(), options),
                                );
                            },
                            Err(_) => {},
                        }
                    },
                }
            } else if word == "voice"@ {
                match crate::text::split_once(arg, '|') {
                    Some((name, voice)) => {
                        lemma_registered_push(doc, doc, acc, CommandView::PlayVoice { name, voice });
                    },
                    None => {},
                }
            } else if word == "fg"@ {
                let parts = split_all(arg, '|');
                if parts.len() >= 5 {
                    let figure = crate::parser::figure_of(parts);
                    let key = crate::script::slot_key(trim(parts[1]), trim(parts[4]));
                    match crate::parser::figure_snapshot(doc.figures, index, key, figure) {
                        Some(s) => {
                            lemma_registered_push(doc, doc.with_figure(index, key, s), acc, figure);
                        },
                        None => {
                            lemma_registered_push(doc, doc, acc, figure);
                        },
                    }
                }
            } else if word == "clear"@ {
                match crate::text::split_once(arg, '|') {
                    Some((distance, position)) => {
                        lemma_registered_push(
                            doc,
                            with_clear(doc, distance, position),
                            acc,
                            CommandView::Clear(distance, position),
                        );
                    },
                    None => {
                        if arg == "All"@ {
                            lemma_registered_push(
                                doc,
                                with_clear(doc, arg, arg),
                                acc,
                                CommandView::Clear(arg, arg),
                            );
                        }
                    },
                }
            } else if word == "jump"@ {
                lemma_registered_push(
                    doc,
                    doc,
                    acc,
                    CommandView::Jump(crate::parser::resolve_target(arg, doc.name)),
                );
            } else if word == "label"@ {
                lemma_registered_label(doc, acc, arg);
            }
        },
    }
}

/// A line leaves the labels and choices registered.
proof fn lemma_line_registered(doc: ScriptView, lines: Lines, i: int, acc: Seq<CommandView>)
    requires
        0 <= i < lines.len(),
        registered(doc, acc),
        doc.commands.len() <= usize::MAX,
    ensures
        step_registered(doc, line_step(doc, lines, i, acc)),
{
    let line = lines[i].1;
    if line.len() > 0 && line[0] == '@' {
        lemma_directive_registered(doc, lines, i, acc);
    } else if line.len() > 0 && line[0] == '%' {
    } else if line.len() > 0 && line[0] == '#' {
    } else {
        match crate::text::split_once(line, crate::parser::OPEN_QUOTE) {
            Some((speaker, quoted)) => {
                if quoted.len() > 0 && quoted.last() == crate::parser::CLOSE_QUOTE {
                    lemma_registered_push(
                        doc,
                        doc,
                        acc,
                        CommandView::Dialogue {
                            speaker: trim(speaker),
                            text: trim(quoted.drop_last()),
                        },
                    );
                }
            },
            None => {},
        }
    }
}

/// The lines of a paragraph leave the labels and choices registered.
proof fn lemma_run_registered(doc: ScriptView, lines: Lines, i: int, acc: Seq<CommandView>)
    requires
        0 <= i,
        registered(doc, acc),
        doc.commands.len() <= usize::MAX,
    ensures
        step_registered(doc, run_lines(doc, lines, i, acc)),
    decreases lines.len() - i,
{
    if i < lines.len() {
        lemma_line_registered(doc, lines, i, acc);
        match line_step(doc, lines, i, acc) {
            Step::Next(d, a) => {
                lemma_run_registered(d, lines, i + 1, a);
            },
            _ => {},
        }
    }
}

/// Closing the block under construction leaves the labels and choices
/// registered.
proof fn lemma_with_block_registered(doc: ScriptView, items: Seq<CommandView>)
    requires
        registered(doc, items),
        doc.commands.len() < usize::MAX,
    ensures
        registered(with_block(doc, items), Seq::empty()),
{
    let d = with_block(doc, items);
    lemma_block_items(items);
    assert forall|k: int, l: Seq<char>|
        0 <= k < d.commands.len() && #[trigger] d.commands[k].items().contains(
            CommandView::Label(l),
        ) implies lookup(d.labels, l) is Some && lookup(d.labels, l)->0 >= k by {
        if k < doc.commands.len() {
            assert(d.commands[k] == doc.commands[k]);
        } else {
            assert(d.commands[k] == block_of(items));
            assert(items.contains(CommandView::Label(l)));
        }
    }
}

/// Closing a paragraph leaves the labels and choices registered, and adds
/// one block at most.
proof fn lemma_close_registered(doc: ScriptView, para: Lines)
    requires
        registered(doc, Seq::empty()),
        doc.commands.len() < usize::MAX,
    ensures
        match close_paragraph(doc, para) {
            Ok(d) => registered(d, Seq::empty()) && d.commands.len() <= doc.commands.len() + 1,
            Err(_) => true,
        },
{
    if para.len() > 0 {
        lemma_run_registered(doc, para, 0, Seq::empty());
        match run_lines(doc, para, 0, Seq::empty()) {
            Step::Fail(_, _) => {},
            Step::Done(d, items) => {
                lemma_with_block_registered(d, items);
            },
            Step::Next(d, items) => {
                lemma_with_block_registered(d, items);
            },
        }
    }
}

/// The text from line `i` on leaves the labels and choices registered.
proof fn lemma_compile_from_registered(doc: ScriptView, raw: Seq<Seq<char>>, i: int, para: Lines)
    requires
        0 <= i,
        registered(doc, Seq::empty()),
        doc.commands.len() + (raw.len() - i) + 1 <= usize::MAX || i >= raw.len(),
        doc.commands.len() < usize::MAX,
    ensures
        match compile_from(doc, raw, i, para) {
            Ok(d) => registered(d, Seq::empty()),
            Err(_) => true,
        },
    decreases raw.len() - i,
{
    if i >= raw.len() {
        lemma_close_registered(doc, para);
    } else {
        let line = trim(raw[i]);
        if line.len() == 0 {
            lemma_close_registered(doc, para);
            match close_paragraph(doc, para) {
                Ok(d) => {
                    lemma_compile_from_registered(d, raw, i + 1, Seq::empty());
                },
                Err(_) => {},
            }
        } else {
            lemma_compile_from_registered(doc, raw, i + 1, para.push(((i + 1) as nat, line)));
        }
    }
}

/// In a script that compiles, up to the number of blocks that can be
/// counted, the indexes agree with the blocks: every label is found in the
/// block that its index names, music and backgrounds are kept in increasing
/// order of block, each under the block in which it is declared, and figures
/// are kept in increasing order under blocks that exist.
pub proof fn lemma_compile_indexed(name: Seq<char>, text: Seq<char>)
    requires
        split_all(text, '\n').len() + 1 < usize::MAX,
    ensures
        match compile(name, text) {
            Ok(doc) => indexed(doc, Seq::empty()),
            Err(_) => true,
        },
{
    let doc = ScriptView::named(name);
    assert(forall|l: Seq<char>| lookup(doc.labels, l) is None);
    lemma_compile_from_indexed(doc, split_all(text, '\n'), 0, Seq::empty());
}

/// In a script that compiles, the music in force at a block is the one
/// declared at the nearest block at or before it, and it is declared there
/// by a command of that block; no music is in force before the first
/// declaration.
pub proof fn lemma_music_in_force(name: Seq<char>, text: Seq<char>, index: nat)
    requires
        split_all(text, '\n').len() + 1 < usize::MAX,
        compile(name, text) is Ok,
    ensures
        ({
            let doc = compile(name, text)->Ok_0;
            match in_force(doc.bgms, index) {
                Some(e) => is_nearest(doc.bgms, index, e.0) && e.0 < doc.commands.len()
                    && doc.commands[e.0 as int].items().contains(CommandView::PlayBgm(e.1)),
                None => forall|j: int| 0 <= j < doc.bgms.len() ==> doc.bgms[j].0 > index,
            }
        }),
{
    lemma_compile_indexed(name, text);
    let doc = compile(name, text)->Ok_0;
    lemma_in_force_nearest(doc.bgms, index);
    match in_force(doc.bgms, index) {
        Some(e) => {
            let j = choose|j: int| 0 <= j < doc.bgms.len() && doc.bgms[j] == e;
            assert(placed(
                doc,
                Seq::empty(),
                doc.bgms[j].0 as int,
                CommandView::PlayBgm(doc.bgms[j].1),
            ));
        },
        None => {},
    }
}

/// In a script that compiles, the background in force at a block is the one
/// declared at the nearest block at or before it, and it is declared there
/// by a command of that block.
pub proof fn lemma_background_in_force(name: Seq<char>, text: Seq<char>, index: nat)
    requires
        split_all(text, '\n').len() + 1 < usize::MAX,
        compile(name, text) is Ok,
    ensures
        ({
            let doc = compile(name, text)->Ok_0;
            match in_force(doc.backgrounds, index) {
                Some(e) => is_nearest(doc.backgrounds, index, e.0) && e.0 < doc.commands.len()
                    && doc.commands[e.0 as int].items().contains(CommandView::SetBackground(e.1)),
                None => forall|j: int|
                    0 <= j < doc.backgrounds.len() ==> doc.backgrounds[j].0 > index,
            }
        }),
{
    lemma_compile_indexed(name, text);
    let doc = compile(name, text)->Ok_0;
    lemma_in_force_nearest(doc.backgrounds, index);
    match in_force(doc.backgrounds, index) {
        Some(e) => {
            let j = choose|j: int| 0 <= j < doc.backgrounds.len() && doc.backgrounds[j] == e;
            assert(placed(
                doc,
                Seq::empty(),
                doc.backgrounds[j].0 as int,
                CommandView::SetBackground(doc.backgrounds[j].1),
            ));
        },
        None => {},
    }
}

/// In a script that compiles, the figures in force at a block are those
/// recorded at the nearest block at or before it that records any.
pub proof fn lemma_figures_in_force(name: Seq<char>, text: Seq<char>, index: nat)
    requires
        split_all(text, '\n').len() + 1 < usize::MAX,
        compile(name, text) is Ok,
    ensures
        ({
            let doc = compile(name, text)->Ok_0;
            match in_force(doc.figures, index) {
                Some(e) => is_nearest(doc.figures, index, e.0) && e.0 < doc.commands.len(),
                None => forall|j: int| 0 <= j < doc.figures.len() ==> doc.figures[j].0 > index,
            }
        }),
{
    lemma_compile_indexed(name, text);
    let doc = compile(name, text)->Ok_0;
    lemma_in_force_nearest(doc.figures, index);
    match in_force(doc.figures, index) {
        Some(e) => {
            let j = choose|j: int| 0 <= j < doc.figures.len() && doc.figures[j] == e;
            assert(doc.figures[j].0 < doc.commands.len());
        },
        None => {},
    }
}

/// In a script that compiles, a label that the script knows stands in the
/// block that the index of labels gives for it.
pub proof fn lemma_label_at_index(name: Seq<char>, text: Seq<char>, label: Seq<char>)
    requires
        split_all(text, '\n').len() + 1 < usize::MAX,
        compile(name, text) is Ok,
        lookup(compile(name, text)->Ok_0.labels, label) is Some,
    ensures
        ({
            let doc = compile(name, text)->Ok_0;
            let index = lookup(doc.labels, label)->0;
            index < doc.commands.len() && doc.commands[index as int].items().contains(
                CommandView::Label(label),
            )
        }),
{
    lemma_compile_indexed(name, text);
    let doc = compile(name, text)->Ok_0;
    assert(placed(doc, Seq::empty(), lookup(doc.labels, label)->0 as int, CommandView::Label(label)));
}

/// In a script that compiles, up to the number of blocks that can be
/// counted, no label and no choice text is kept twice.
pub proof fn lemma_compile_distinct(name: Seq<char>, text: Seq<char>)
    requires
        split_all(text, '\n').len() + 1 < usize::MAX,
    ensures
        match compile(name, text) {
            Ok(doc) => distinct_keys(doc.labels) && distinct_keys(doc.choices),
            Err(_) => true,
        },
{
    let doc = ScriptView::named(name);
    assert(forall|l: Seq<char>| !Seq::<CommandView>::empty().contains(CommandView::Label(l)));
    lemma_compile_from_registered(doc, split_all(text, '\n'), 0, Seq::empty());
}

/// In a script that compiles, a label that stands in a block is known, and
/// its index names the last block in which it stands: that block holds the
/// label, and no later block does.
pub proof fn lemma_label_names_last_block(
    name: Seq<char>,
    text: Seq<char>,
    label: Seq<char>,
    k: int,
)
    requires
        split_all(text, '\n').len() + 1 < usize::MAX,
        compile(name, text) is Ok,
        0 <= k < compile(name, text)->Ok_0.commands.len(),
        compile(name, text)->Ok_0.commands[k].items().contains(CommandView::Label(label)),
    ensures
        ({
            let doc = compile(name, text)->Ok_0;
            let index = lookup(doc.labels, label);
            &&& index is Some
            &&& k <= index->0 < doc.commands.len()
            &&& doc.commands[index->0 as int].items().contains(CommandView::Label(label))
        }),
{
    let doc = ScriptView::named(name);
    assert(forall|l: Seq<char>| !Seq::<CommandView>::empty().contains(CommandView::Label(l)));
    lemma_compile_from_registered(doc, split_all(text, '\n'), 0, Seq::empty());
    lemma_label_at_index(name, text, label);
}

/// The options that a `choose` directive reads hold no choice text twice.
pub proof fn lemma_options_distinct(
    doc: ScriptView,
    lines: Lines,
    from: int,
    count: nat,
    options: Seq<(Seq<char>, LabelView)>,
)
    requires
        distinct_keys(options),
    ensures
        match read_options(doc, lines, from, count, options).1 {
            Ok(read) => distinct_keys(read),
            Err(_) => true,
        },
    decreases count,
{
    if count == 0 {
    } else if from < 0 || from >= lines.len() {
    } else {
        match crate::text::split_once(lines[from].1, ' ') {
            None => {},
            Some((choice, target)) => {
                let label = crate::parser::resolve_target(target, doc.name);
                lemma_upsert_distinct(options, choice, label);
                lemma_options_distinct(
                    ScriptView { choices: upsert(doc.choices, choice, label), ..doc },
                    lines,
                    from + 1,
                    (count - 1) as nat,
                    upsert(options, choice, label),
                );
            },
        }
    }
}

} // verus!
