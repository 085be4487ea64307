//! The frame encoder: it turns changed cells into escape sequences and text,
//! and keeps track of where the terminal's cursor is and which style is in
//! effect, so that it sends no more than needed.
//!
//! Within a frame the encoder diffs each cell's style against the style it
//! last sent. At the start of every frame it forgets that style and sends a
//! full reset before the first cell: the terminal may have been written to
//! between two frames. The cursor position is kept from frame to frame.

use crate::sequences::{
    commands_bytes, lemma_commands_bytes_concat, lemma_commands_bytes_one, Attribute, Command,
};
use crate::style::{
    ansi_color, spec_ansi_color, Cell, Modifier, Position, Style, BOLD, CROSSED_OUT, DIM, HIDDEN,
    ITALIC, RAPID_BLINK, REVERSED, SLOW_BLINK, UNDERLINED,
};
use vstd::prelude::*;

verus! {

/// What the encoder knows of the terminal, and the bytes it has queued.
pub struct Screen {
    /// Where the terminal's cursor is, if known.
    pub cursor: Option<Position>,
    /// The style in effect on the terminal, if known.
    pub style: Option<Style>,
    /// The bytes queued for the terminal, oldest first.
    pub output: Seq<u8>,
}

/// The sequences that bring the cursor from `previous` to `target`: none if
/// it is known to be there, else one absolute move in coordinates counted
/// from 1.
pub open spec fn move_codes(previous: Option<Position>, target: Position) -> Seq<Command> {
    if previous == Some(target) {
        Seq::empty()
    } else {
        seq![Command::MoveCursorTo((target.x + 1) as u16, (target.y + 1) as u16)]
    }
}

/// Bold, faint and normal intensity share one slot of the terminal: at most
/// one sequence is sent for the three.
pub open spec fn intensity_codes(to_set: Modifier, to_clear: Modifier) -> Seq<Command> {
    if to_set.spec_contains(BOLD) {
        seq![Command::SetAttribute(Attribute::Bold)]
    } else if to_set.spec_contains(DIM) {
        seq![Command::SetAttribute(Attribute::Faint)]
    } else if to_clear.spec_contains(BOLD) || to_clear.spec_contains(DIM) {
        seq![Command::SetAttribute(Attribute::Normal)]
    } else {
        Seq::empty()
    }
}

/// The sequence for a modifier that has an attribute of its own: `on` where
/// it is newly set, `off` where it is newly cleared.
pub open spec fn toggle_codes(
    to_set: Modifier,
    to_clear: Modifier,
    flag: u16,
    on: Attribute,
    off: Attribute,
) -> Seq<Command> {
    if to_set.spec_contains(flag) {
        seq![Command::SetAttribute(on)]
    } else if to_clear.spec_contains(flag) {
        seq![Command::SetAttribute(off)]
    } else {
        Seq::empty()
    }
}

/// Slow and rapid blink share the terminal's one blink attribute. It is
/// turned off only when the target has neither.
pub open spec fn blink_codes(to_set: Modifier, to_clear: Modifier, target: Modifier) -> Seq<
    Command,
> {
    if to_set.spec_contains(RAPID_BLINK) || to_set.spec_contains(SLOW_BLINK) {
        seq![Command::SetAttribute(Attribute::Blink)]
    } else if (to_clear.spec_contains(RAPID_BLINK) || to_clear.spec_contains(SLOW_BLINK))
        && !target.spec_contains(RAPID_BLINK) && !target.spec_contains(SLOW_BLINK) {
        seq![Command::SetAttribute(Attribute::BlinkOff)]
    } else {
        Seq::empty()
    }
}

/// The attribute sequences that turn the modifiers `previous` into `target`.
pub open spec fn modifier_codes(previous: Modifier, target: Modifier) -> Seq<Command> {
    let to_set = target.spec_difference(previous);
    let to_clear = previous.spec_difference(target);
    intensity_codes(to_set, to_clear) + toggle_codes(
        to_set,
        to_clear,
        CROSSED_OUT,
        Attribute::Crossed,
        Attribute::CrossedOff,
    ) + toggle_codes(to_set, to_clear, HIDDEN, Attribute::Conceal, Attribute::ConcealOff)
        + toggle_codes(to_set, to_clear, ITALIC, Attribute::Italic, Attribute::ItalicOff)
        + blink_codes(to_set, to_clear, target) + toggle_codes(
        to_set,
        to_clear,
        REVERSED,
        Attribute::Reverse,
        Attribute::ReverseOff,
    ) + toggle_codes(to_set, to_clear, UNDERLINED, Attribute::Underline, Attribute::UnderlineOff)
}

/// The color sequences that turn the colors of `previous` into those of
/// `target`: the background first, each only where it differs.
pub open spec fn color_codes(previous: Style, target: Style) -> Seq<Command> {
    let bg = if previous.bg != target.bg {
        seq![Command::SetBackgroundColor(spec_ansi_color(target.bg))]
    } else {
        Seq::empty()
    };
    let fg = if previous.fg != target.fg {
        seq![Command::SetForegroundColor(spec_ansi_color(target.fg))]
    } else {
        Seq::empty()
    };
    bg + fg
}

/// The sequences that turn the known style `previous` into `target`.
pub open spec fn diff_codes(previous: Style, target: Style) -> Seq<Command> {
    modifier_codes(previous.spec_effective(), target.spec_effective()) + color_codes(
        previous,
        target,
    )
}

/// The sequences that bring the terminal to the style `target`. Where the
/// style in effect is unknown, a full reset comes first and the diff starts
/// from the reset style.
pub open spec fn style_codes(previous: Option<Style>, target: Style) -> Seq<Command> {
    match previous {
        None => seq![Command::ResetAttributes] + diff_codes(Style::spec_reset(), target),
        Some(known) => diff_codes(known, target),
    }
}

/// The sequences sent on entering the alternate screen.
pub open spec fn enter_codes() -> Seq<Command> {
    seq![
        Command::SwitchBufferToAlternate,
        Command::MoveCursorTo(1, 1),
        Command::ResetAttributes,
        Command::ClearBuffer,
    ]
}

/// The sequences sent on leaving the alternate screen.
pub open spec fn leave_codes() -> Seq<Command> {
    seq![
        Command::MoveCursorTo(1, 1),
        Command::ResetAttributes,
        Command::ClearBuffer,
        Command::SwitchBufferToNormal,
    ]
}

impl Screen {
    /// A terminal of which nothing is known, and nothing queued.
    pub open spec fn unknown() -> Screen {
        Screen { cursor: None, style: None, output: Seq::empty() }
    }

    /// Queues `codes`.
    pub open spec fn emit(self, codes: Seq<Command>) -> Screen {
        Screen { output: self.output + commands_bytes(codes), ..self }
    }

    /// Brings the cursor to `target`.
    pub open spec fn move_to(self, target: Position) -> Screen {
        Screen { cursor: Some(target), ..self.emit(move_codes(self.cursor, target)) }
    }

    /// Brings the style in effect to `target`.
    pub open spec fn apply_style(self, target: Style) -> Screen {
        Screen { style: Some(target), ..self.emit(style_codes(self.style, target)) }
    }

    /// Draws one cell at column `x` of row `y`. A skipped cell changes
    /// nothing; any other leaves the cursor one column to its right.
    pub open spec fn put_cell(self, x: u16, y: u16, cell: Cell) -> Screen {
        if cell.skip {
            self
        } else {
            let styled = self.move_to(Position { x, y }).apply_style(cell.spec_style());
            Screen {
                cursor: Some(Position { x: (x + 1) as u16, y }),
                output: styled.output + vstd::utf8::encode_utf8(cell.symbol@),
                ..styled
            }
        }
    }

    /// Draws `cells` in order.
    pub open spec fn put_cells(self, cells: Seq<(u16, u16, Cell)>) -> Screen
        decreases cells.len(),
    {
        if cells.len() == 0 {
            self
        } else {
            self.put_cells(cells.drop_last()).put_cell(
                cells.last().0,
                cells.last().1,
                cells.last().2,
            )
        }
    }

    /// Draws one frame: the style in effect counts as unknown at its start.
    pub open spec fn draw(self, cells: Seq<(u16, u16, Cell)>) -> Screen {
        Screen { style: None, ..self }.put_cells(cells)
    }

    /// Resets the attributes, then clears the screen.
    pub open spec fn clear(self) -> Screen {
        Screen {
            style: Some(Style::spec_reset()),
            ..self.emit(seq![Command::ResetAttributes, Command::ClearBuffer])
        }
    }

    /// Enters the alternate screen.
    pub open spec fn enter_exclusive(self) -> Screen {
        Screen {
            cursor: Some(Position::spec_origin()),
            style: Some(Style::spec_reset()),
            ..self.emit(enter_codes())
        }
    }

    /// Leaves the alternate screen.
    pub open spec fn leave_exclusive(self) -> Screen {
        Screen {
            cursor: Some(Position::spec_origin()),
            style: Some(Style::spec_reset()),
            ..self.emit(leave_codes())
        }
    }

    /// Hands the queued bytes out.
    pub open spec fn flushed(self) -> Screen {
        Screen { output: Seq::empty(), ..self }
    }
}

/// Queuing two runs of sequences one after the other queues their
/// concatenation.
pub proof fn lemma_emit_twice(screen: Screen, first: Seq<Command>, second: Seq<Command>)
    ensures
        screen.emit(first).emit(second) == screen.emit(first + second),
{
    lemma_commands_bytes_concat(first, second);
    assert(screen.emit(first).emit(second).output =~= screen.emit(first + second).output);
}

/// Queuing no sequence changes nothing.
pub proof fn lemma_emit_nothing(screen: Screen)
    ensures
        screen.emit(Seq::empty()) == screen,
{
    assert(screen.emit(Seq::empty()).output =~= screen.output);
}

/// Moving the cursor to where it already is sends nothing. So two moves to
/// the same target send one sequence in all, or none where the cursor was
/// known to be there from the start.
pub proof fn lemma_move_twice_sends_once(screen: Screen, target: Position)
    ensures
        move_codes(screen.move_to(target).cursor, target) == Seq::<Command>::empty(),
        screen.move_to(target).move_to(target) == screen.move_to(target),
        (move_codes(screen.cursor, target) + move_codes(
            screen.move_to(target).cursor,
            target,
        )).len() == (if screen.cursor == Some(target) {
            0nat
        } else {
            1nat
        }),
{
    lemma_emit_nothing(screen.move_to(target));
}

/// A skipped cell leaves the tracked cursor and style as they were and
/// queues nothing.
pub proof fn lemma_skipped_cell_changes_nothing(screen: Screen, x: u16, y: u16, cell: Cell)
    requires
        cell.skip,
    ensures
        screen.put_cell(x, y, cell) == screen,
{
}

/// Drawing a run of cells and then another is drawing the two runs as one.
pub proof fn lemma_put_cells_concat(
    screen: Screen,
    first: Seq<(u16, u16, Cell)>,
    second: Seq<(u16, u16, Cell)>,
)
    ensures
        screen.put_cells(first + second) == screen.put_cells(first).put_cells(second),
    decreases second.len(),
{
    if second.len() == 0 {
        assert(first + second =~= first);
    } else {
        assert((first + second).drop_last() =~= first + second.drop_last());
        assert((first + second).last() == second.last());
        lemma_put_cells_concat(screen, first, second.drop_last());
    }
}

/// A skipped cell anywhere in a frame changes nothing of what the frame
/// queues or of the state it leaves.
pub proof fn lemma_skipped_cell_in_frame(
    screen: Screen,
    before: Seq<(u16, u16, Cell)>,
    x: u16,
    y: u16,
    cell: Cell,
    after: Seq<(u16, u16, Cell)>,
)
    requires
        cell.skip,
    ensures
        screen.draw(before.push((x, y, cell)) + after) == screen.draw(before + after),
{
    let start = Screen { style: None, ..screen };
    let with_cell = before.push((x, y, cell));
    assert(with_cell.drop_last() =~= before);
    assert(start.put_cells(with_cell) == start.put_cells(before));
    lemma_put_cells_concat(start, with_cell, after);
    lemma_put_cells_concat(start, before, after);
}

/// No modifier is set or cleared between two equal sets of modifiers.
pub proof fn lemma_same_modifiers_send_nothing(modifiers: Modifier)
    ensures
        modifier_codes(modifiers, modifiers) == Seq::<Command>::empty(),
{
    let bits = modifiers.bits;
    assert(bits & !bits == 0) by (bit_vector);
    let none = modifiers.spec_difference(modifiers);
    assert(none.bits == 0);
    assert(0u16 & 0x001 != 0x001 && 0u16 & 0x002 != 0x002 && 0u16 & 0x004 != 0x004 && 0u16 & 0x008
        != 0x008 && 0u16 & 0x010 != 0x010 && 0u16 & 0x020 != 0x020 && 0u16 & 0x040 != 0x040 && 0u16
        & 0x080 != 0x080 && 0u16 & 0x100 != 0x100) by (bit_vector);
    assert(modifier_codes(modifiers, modifiers) =~= Seq::<Command>::empty());
}

/// A style that is already in effect takes no sequence: of two cells in a
/// row with the same style, the second sends no attribute and no color.
pub proof fn lemma_same_style_sends_nothing(screen: Screen, style: Style)
    requires
        screen.style == Some(style),
    ensures
        style_codes(screen.style, style) == Seq::<Command>::empty(),
        screen.apply_style(style) == screen,
{
    lemma_same_modifiers_send_nothing(style.spec_effective());
    assert(color_codes(style, style) =~= Seq::<Command>::empty());
    assert(style_codes(screen.style, style) =~= Seq::<Command>::empty());
    lemma_emit_nothing(screen);
}

/// After a cell that was drawn, a cell of the same style sends no attribute
/// and no color: only the move, where one is needed, and its text.
pub proof fn lemma_second_cell_of_same_style(
    screen: Screen,
    x1: u16,
    y1: u16,
    first: Cell,
    x2: u16,
    y2: u16,
    second: Cell,
)
    requires
        !first.skip,
        !second.skip,
        first.spec_style() == second.spec_style(),
    ensures
        style_codes(screen.put_cell(x1, y1, first).style, second.spec_style()) == Seq::<
            Command,
        >::empty(),
        screen.put_cell(x1, y1, first).put_cell(x2, y2, second).output == screen.put_cell(
            x1,
            y1,
            first,
        ).output + commands_bytes(
            move_codes(screen.put_cell(x1, y1, first).cursor, Position { x: x2, y: y2 }),
        ) + vstd::utf8::encode_utf8(second.symbol@),
{
    let drawn = screen.put_cell(x1, y1, first);
    let moved = drawn.move_to(Position { x: x2, y: y2 });
    lemma_same_style_sends_nothing(moved, second.spec_style());
}

/// A member of two runs put together is a member of one of them.
proof fn lemma_member_of_concat(first: Seq<Command>, second: Seq<Command>, command: Command)
    requires
        (first + second).contains(command),
    ensures
        first.contains(command) || second.contains(command),
{
    let i = choose|i: int| 0 <= i < (first + second).len() && (first + second)[i] == command;
    if i < first.len() {
        assert(first[i] == command);
    } else {
        assert(second[i - first.len()] == command);
    }
}

/// Whether `command` sets bold or faint intensity.
pub open spec fn raises_or_lowers_intensity(command: Command) -> bool {
    command == Command::SetAttribute(Attribute::Bold) || command == Command::SetAttribute(
        Attribute::Faint,
    )
}

/// Of the sequences that change a style, only the one for the intensity can
/// set bold or faint.
proof fn lemma_intensity_comes_from_one_place(
    previous: Option<Style>,
    target: Style,
    command: Command,
)
    requires
        style_codes(previous, target).contains(command),
        raises_or_lowers_intensity(command),
    ensures
        ({
            let known = match previous {
                Some(known) => known,
                None => Style::spec_reset(),
            };
            intensity_codes(
                target.spec_effective().spec_difference(known.spec_effective()),
                known.spec_effective().spec_difference(target.spec_effective()),
            ).contains(command)
        }),
{
    let known = match previous {
        Some(known) => known,
        None => Style::spec_reset(),
    };
    let from = known.spec_effective();
    let to = target.spec_effective();
    let to_set = to.spec_difference(from);
    let to_clear = from.spec_difference(to);
    let intensity = intensity_codes(to_set, to_clear);
    let crossed = toggle_codes(
        to_set,
        to_clear,
        CROSSED_OUT,
        Attribute::Crossed,
        Attribute::CrossedOff,
    );
    let hidden = toggle_codes(to_set, to_clear, HIDDEN, Attribute::Conceal, Attribute::ConcealOff);
    let italic = toggle_codes(to_set, to_clear, ITALIC, Attribute::Italic, Attribute::ItalicOff);
    let blink = blink_codes(to_set, to_clear, to);
    let reversed = toggle_codes(
        to_set,
        to_clear,
        REVERSED,
        Attribute::Reverse,
        Attribute::ReverseOff,
    );
    let underlined = toggle_codes(
        to_set,
        to_clear,
        UNDERLINED,
        Attribute::Underline,
        Attribute::UnderlineOff,
    );
    let colors = color_codes(known, target);
    let modifiers = modifier_codes(from, to);
    if previous is None {
        lemma_member_of_concat(seq![Command::ResetAttributes], diff_codes(known, target), command);
    }
    assert(diff_codes(known, target).contains(command));
    lemma_member_of_concat(modifiers, colors, command);
    assert(!colors.contains(command)) by {
        if colors.contains(command) {
            let i = choose|i: int| 0 <= i < colors.len() && colors[i] == command;
            assert(colors[i] == command);
        }
    }
    assert(modifiers.contains(command));
    lemma_member_of_concat(
        intensity + crossed + hidden + italic + blink + reversed,
        underlined,
        command,
    );
    if !underlined.contains(command) {
        lemma_member_of_concat(intensity + crossed + hidden + italic + blink, reversed, command);
        if !reversed.contains(command) {
            lemma_member_of_concat(intensity + crossed + hidden + italic, blink, command);
            if !blink.contains(command) {
                lemma_member_of_concat(intensity + crossed + hidden, italic, command);
                if !italic.contains(command) {
                    lemma_member_of_concat(intensity + crossed, hidden, command);
                    if !hidden.contains(command) {
                        lemma_member_of_concat(intensity, crossed, command);
                    }
                }
            }
        }
    }
}

/// No change of style sends both "set bold" and "set faint": the three
/// intensities share one slot of the terminal, and at most one sequence is
/// sent for it.
pub proof fn lemma_never_bold_and_faint(previous: Option<Style>, target: Style)
    ensures
        !(style_codes(previous, target).contains(Command::SetAttribute(Attribute::Bold))
            && style_codes(previous, target).contains(Command::SetAttribute(Attribute::Faint))),
{
    let bold = Command::SetAttribute(Attribute::Bold);
    let faint = Command::SetAttribute(Attribute::Faint);
    let codes = style_codes(previous, target);
    if codes.contains(bold) && codes.contains(faint) {
        lemma_intensity_comes_from_one_place(previous, target, bold);
        lemma_intensity_comes_from_one_place(previous, target, faint);
        let known = match previous {
            Some(known) => known,
            None => Style::spec_reset(),
        };
        let intensity = intensity_codes(
            target.spec_effective().spec_difference(known.spec_effective()),
            known.spec_effective().spec_difference(target.spec_effective()),
        );
        let i = choose|i: int| 0 <= i < intensity.len() && intensity[i] == bold;
        let j = choose|j: int| 0 <= j < intensity.len() && intensity[j] == faint;
        assert(intensity[i] == bold);
        assert(intensity[j] == faint);
        assert(intensity.len() <= 1);
    }
}

/// From bold alone to dim alone, the one sequence sent for the modifiers is
/// "set faint".
pub proof fn lemma_bold_to_dim_sets_faint()
    ensures
        modifier_codes(Modifier { bits: BOLD }, Modifier { bits: DIM }) == seq![
            Command::SetAttribute(Attribute::Faint),
        ],
{
    assert(0x002u16 & !0x001u16 == 0x002u16) by (bit_vector);
    assert(0x001u16 & !0x002u16 == 0x001u16) by (bit_vector);
    assert(0x002u16 & 0x001 != 0x001 && 0x002u16 & 0x002 == 0x002 && 0x002u16 & 0x004 != 0x004
        && 0x002u16 & 0x008 != 0x008 && 0x002u16 & 0x010 != 0x010 && 0x002u16 & 0x020 != 0x020
        && 0x002u16 & 0x040 != 0x040 && 0x002u16 & 0x080 != 0x080 && 0x002u16 & 0x100 != 0x100)
        by (bit_vector);
    assert(0x001u16 & 0x001 == 0x001 && 0x001u16 & 0x002 != 0x002 && 0x001u16 & 0x004 != 0x004
        && 0x001u16 & 0x008 != 0x008 && 0x001u16 & 0x010 != 0x010 && 0x001u16 & 0x020 != 0x020
        && 0x001u16 & 0x040 != 0x040 && 0x001u16 & 0x080 != 0x080 && 0x001u16 & 0x100 != 0x100)
        by (bit_vector);
    assert(modifier_codes(Modifier { bits: BOLD }, Modifier { bits: DIM }) =~= seq![
        Command::SetAttribute(Attribute::Faint),
    ]);
}

/// Entering the alternate screen and leaving it at once leaves the tracked
/// cursor at the origin and the tracked style reset, as entering alone does,
/// whatever was known before; both fixed runs of sequences are queued whole.
pub proof fn lemma_enter_then_leave(screen: Screen)
    ensures
        screen.enter_exclusive().leave_exclusive().cursor == Some(Position::spec_origin()),
        screen.enter_exclusive().leave_exclusive().style == Some(Style::spec_reset()),
        screen.enter_exclusive().leave_exclusive().cursor
            == Screen::unknown().enter_exclusive().cursor,
        screen.enter_exclusive().leave_exclusive().style
            == Screen::unknown().enter_exclusive().style,
        screen.enter_exclusive().leave_exclusive().output == screen.output + commands_bytes(
            enter_codes() + leave_codes(),
        ),
{
    lemma_commands_bytes_concat(enter_codes(), leave_codes());
    assert(screen.enter_exclusive().leave_exclusive().output =~= screen.output + commands_bytes(
        enter_codes() + leave_codes(),
    ));
}

/// The cells of `cells` that are not skipped, in order.
pub open spec fn without_skipped(cells: Seq<(u16, u16, Cell)>) -> Seq<(u16, u16, Cell)>
    decreases cells.len(),
{
    if cells.len() == 0 {
        cells
    } else if cells.last().2.skip {
        without_skipped(cells.drop_last())
    } else {
        without_skipped(cells.drop_last()).push(cells.last())
    }
}

/// A frame and the same frame without its skipped cells queue the same
/// bytes and leave the same tracked cursor and style. Where the one can be
/// drawn, so can the other.
pub proof fn lemma_skipped_cells_change_nothing(screen: Screen, cells: Seq<(u16, u16, Cell)>)
    ensures
        screen.put_cells(cells) == screen.put_cells(without_skipped(cells)),
        screen.draw(cells) == screen.draw(without_skipped(cells)),
        screen.draw(cells).flushed() == screen.draw(without_skipped(cells)).flushed(),
        all_drawable(cells) ==> all_drawable(without_skipped(cells)),
{
    lemma_put_cells_without_skipped(screen, cells);
    lemma_put_cells_without_skipped(Screen { style: None, ..screen }, cells);
    if all_drawable(cells) {
        lemma_without_skipped_holds_cells_drawn(cells);
        let kept = without_skipped(cells);
        assert forall|i: int| 0 <= i < kept.len() && !(#[trigger] kept[i]).2.skip implies drawable(
            kept[i].0,
            kept[i].1,
        ) by {
            let k = choose|k: int| 0 <= k < cells.len() && cells[k] == kept[i];
            assert(!cells[k].2.skip);
        }
    }
}

proof fn lemma_put_cells_without_skipped(screen: Screen, cells: Seq<(u16, u16, Cell)>)
    ensures
        screen.put_cells(cells) == screen.put_cells(without_skipped(cells)),
    decreases cells.len(),
{
    if cells.len() > 0 {
        lemma_put_cells_without_skipped(screen, cells.drop_last());
        if !cells.last().2.skip {
            let kept = without_skipped(cells.drop_last());
            assert(kept.push(cells.last()).drop_last() =~= kept);
        }
    }
}

/// Every cell that is left after the skipped ones are taken out is a cell
/// of the frame.
proof fn lemma_without_skipped_holds_cells_drawn(cells: Seq<(u16, u16, Cell)>)
    ensures
        forall|i: int|
            0 <= i < without_skipped(cells).len() ==> exists|k: int|
                0 <= k < cells.len() && cells[k] == #[trigger] without_skipped(cells)[i],
    decreases cells.len(),
{
    if cells.len() > 0 {
        let front = cells.drop_last();
        lemma_without_skipped_holds_cells_drawn(front);
        let kept = without_skipped(cells);
        assert forall|i: int| 0 <= i < kept.len() implies exists|k: int|
            0 <= k < cells.len() && cells[k] == #[trigger] kept[i] by {
            if i < without_skipped(front).len() {
                let k = choose|k: int| 0 <= k < front.len() && front[k] == without_skipped(front)[i];
                assert(cells[k] == kept[i]);
            } else {
                assert(cells[cells.len() - 1] == kept[i]);
            }
        }
    }
}

/// Cells that are all skipped change nothing.
pub proof fn lemma_skipped_run_changes_nothing(screen: Screen, cells: Seq<(u16, u16, Cell)>)
    requires
        forall|i: int| 0 <= i < cells.len() ==> (#[trigger] cells[i]).2.skip,
    ensures
        screen.put_cells(cells) == screen,
    decreases cells.len(),
{
    if cells.len() > 0 {
        assert(cells.last() == cells[cells.len() - 1]);
        lemma_skipped_run_changes_nothing(screen, cells.drop_last());
    }
}

/// The sequences that a drawn cell sends in front of its text: the move,
/// where one is needed, then what changes the style.
pub open spec fn cell_codes(screen: Screen, x: u16, y: u16, cell: Cell) -> Seq<Command> {
    move_codes(screen.cursor, Position { x, y }) + style_codes(screen.style, cell.spec_style())
}

/// A drawn cell queues its sequences, then its text.
pub proof fn lemma_cell_output(screen: Screen, x: u16, y: u16, cell: Cell)
    requires
        !cell.skip,
    ensures
        screen.put_cell(x, y, cell).output == screen.output + commands_bytes(
            cell_codes(screen, x, y, cell),
        ) + vstd::utf8::encode_utf8(cell.symbol@),
{
    lemma_commands_bytes_concat(
        move_codes(screen.cursor, Position { x, y }),
        style_codes(screen.style, cell.spec_style()),
    );
    assert(screen.put_cell(x, y, cell).output =~= screen.output + commands_bytes(
        cell_codes(screen, x, y, cell),
    ) + vstd::utf8::encode_utf8(cell.symbol@));
}

/// Between the text of a drawn cell and the text of the next drawn cell of
/// the same style, skipped cells between them or not, nothing is queued
/// but one move at most: no reset, no attribute and no color.
pub proof fn lemma_next_cell_of_same_style(
    screen: Screen,
    x1: u16,
    y1: u16,
    first: Cell,
    between: Seq<(u16, u16, Cell)>,
    x2: u16,
    y2: u16,
    second: Cell,
)
    requires
        !first.skip,
        !second.skip,
        first.spec_style() == second.spec_style(),
        forall|i: int| 0 <= i < between.len() ==> (#[trigger] between[i]).2.skip,
    ensures
        ({
            let drawn = screen.put_cell(x1, y1, first);
            let codes = cell_codes(drawn.put_cells(between), x2, y2, second);
            &&& drawn.put_cells(between) == drawn
            &&& drawn.put_cells(between).put_cell(x2, y2, second).output == drawn.output
                + commands_bytes(codes) + vstd::utf8::encode_utf8(second.symbol@)
            &&& codes == move_codes(drawn.cursor, Position { x: x2, y: y2 })
            &&& codes.len() <= 1
            &&& forall|i: int| 0 <= i < codes.len() ==> #[trigger] codes[i] is MoveCursorTo
        }),
{
    let drawn = screen.put_cell(x1, y1, first);
    lemma_skipped_run_changes_nothing(drawn, between);
    lemma_same_style_sends_nothing(drawn, second.spec_style());
    lemma_cell_output(drawn, x2, y2, second);
    assert(cell_codes(drawn, x2, y2, second) =~= move_codes(
        drawn.cursor,
        Position { x: x2, y: y2 },
    ));
}

/// The slot of the terminal that a sequence of a change of style writes
/// to: the reset comes first, then the intensity, each modifier that has
/// an attribute of its own, the blink, and the two colors.
pub open spec fn slot(command: Command) -> int {
    match command {
        Command::ResetAttributes => -1,
        Command::SetAttribute(attribute) => match attribute {
            Attribute::Bold | Attribute::Faint | Attribute::Normal => 0,
            Attribute::Crossed | Attribute::CrossedOff => 1,
            Attribute::Conceal | Attribute::ConcealOff => 2,
            Attribute::Italic | Attribute::ItalicOff => 3,
            Attribute::Blink | Attribute::BlinkOff => 4,
            Attribute::Reverse | Attribute::ReverseOff => 5,
            Attribute::Underline | Attribute::UnderlineOff => 6,
        },
        Command::SetBackgroundColor(_) => 7,
        Command::SetForegroundColor(_) => 8,
        _ => 9,
    }
}

/// Whether the slots of `codes` rise from each sequence to the next, and
/// stay below `bound`.
pub open spec fn slots_rise(codes: Seq<Command>, bound: int) -> bool {
    &&& forall|i: int, j: int|
        0 <= i < j < codes.len() ==> slot(#[trigger] codes[i]) < slot(#[trigger] codes[j])
    &&& forall|i: int| 0 <= i < codes.len() ==> slot(#[trigger] codes[i]) < bound
}

/// Sequences whose slots rise go on rising when at most one sequence of the
/// next slot is put behind them.
proof fn lemma_slots_rise(codes: Seq<Command>, next: Seq<Command>, bound: int)
    requires
        slots_rise(codes, bound),
        fills(next, bound),
    ensures
        slots_rise(codes + next, bound + 1),
{
    let all = codes + next;
    assert forall|i: int| 0 <= i < all.len() implies slot(#[trigger] all[i]) < bound + 1 by {
        if i < codes.len() {
            assert(all[i] == codes[i]);
        } else {
            assert(all[i] == next[i - codes.len()]);
        }
    }
    assert forall|i: int, j: int| 0 <= i < j < all.len() implies slot(#[trigger] all[i]) < slot(
        #[trigger] all[j],
    ) by {
        assert(all[i] == codes[i]);
        if j < codes.len() {
            assert(all[j] == codes[j]);
        } else {
            assert(all[j] == next[j - codes.len()]);
        }
    }
}

/// A change of style sends at most one sequence for each slot of the
/// terminal, in the order of the slots. So it never sends two of "set
/// bold", "set faint" and "set normal", and never both "set blink" and
/// "clear blink"; and the background color comes before the foreground
/// color.
pub proof fn lemma_one_sequence_for_each_slot(previous: Option<Style>, target: Style)
    ensures
        slots_rise(style_codes(previous, target), 9),
        forall|i: int, j: int|
            0 <= i < style_codes(previous, target).len() && 0 <= j < style_codes(
                previous,
                target,
            ).len() && i != j ==> slot(#[trigger] style_codes(previous, target)[i]) != slot(
                #[trigger] style_codes(previous, target)[j],
            ),
{
    let known = match previous {
        Some(known) => known,
        None => Style::spec_reset(),
    };
    let head = if previous is None {
        seq![Command::ResetAttributes]
    } else {
        Seq::empty()
    };
    lemma_modifier_slots_rise(head, known.spec_effective(), target.spec_effective());
    let modifiers = modifier_codes(known.spec_effective(), target.spec_effective());
    let bg = if known.bg != target.bg {
        seq![Command::SetBackgroundColor(spec_ansi_color(target.bg))]
    } else {
        Seq::empty()
    };
    let fg = if known.fg != target.fg {
        seq![Command::SetForegroundColor(spec_ansi_color(target.fg))]
    } else {
        Seq::empty()
    };
    lemma_slots_rise(head + modifiers, bg, 7);
    lemma_slots_rise(head + modifiers + bg, fg, 8);
    let codes = style_codes(previous, target);
    assert(codes =~= head + modifiers + bg + fg);
    assert forall|i: int, j: int| 0 <= i < codes.len() && 0 <= j < codes.len() && i != j implies slot(
        #[trigger] codes[i],
    ) != slot(#[trigger] codes[j]) by {
        if i < j {
            assert(slot(codes[i]) < slot(codes[j]));
        } else {
            assert(slot(codes[j]) < slot(codes[i]));
        }
    }
}

/// The sequence for the intensity, if there is one, writes to the first
/// slot.
proof fn lemma_intensity_slot(to_set: Modifier, to_clear: Modifier)
    ensures
        fills(intensity_codes(to_set, to_clear), 0),
{
}

/// The sequence for a modifier with an attribute of its own, if there is
/// one, writes to the slot of that attribute.
proof fn lemma_toggle_slot(
    to_set: Modifier,
    to_clear: Modifier,
    flag: u16,
    on: Attribute,
    off: Attribute,
    place: int,
)
    requires
        slot(Command::SetAttribute(on)) == place,
        slot(Command::SetAttribute(off)) == place,
    ensures
        fills(toggle_codes(to_set, to_clear, flag, on, off), place),
{
}

/// The sequence for the blink, if there is one, writes to the slot of the
/// blink.
proof fn lemma_blink_slot(to_set: Modifier, to_clear: Modifier, target: Modifier)
    ensures
        fills(blink_codes(to_set, to_clear, target), 4),
{
}

/// The sequences that change the modifiers keep the slots rising behind
/// `head`, which is a reset or nothing.
proof fn lemma_modifier_slots_rise(head: Seq<Command>, previous: Modifier, target: Modifier)
    requires
        slots_rise(head, 0),
    ensures
        slots_rise(head + modifier_codes(previous, target), 7),
{
    let to_set = target.spec_difference(previous);
    let to_clear = previous.spec_difference(target);
    let intensity = intensity_codes(to_set, to_clear);
    let crossed = toggle_codes(
        to_set,
        to_clear,
        CROSSED_OUT,
        Attribute::Crossed,
        Attribute::CrossedOff,
    );
    let hidden = toggle_codes(to_set, to_clear, HIDDEN, Attribute::Conceal, Attribute::ConcealOff);
    let italic = toggle_codes(to_set, to_clear, ITALIC, Attribute::Italic, Attribute::ItalicOff);
    let blink = blink_codes(to_set, to_clear, target);
    let reversed = toggle_codes(
        to_set,
        to_clear,
        REVERSED,
        Attribute::Reverse,
        Attribute::ReverseOff,
    );
    let underlined = toggle_codes(
        to_set,
        to_clear,
        UNDERLINED,
        Attribute::Underline,
        Attribute::UnderlineOff,
    );
    lemma_intensity_slot(to_set, to_clear);
    lemma_toggle_slot(to_set, to_clear, CROSSED_OUT, Attribute::Crossed, Attribute::CrossedOff, 1);
    lemma_toggle_slot(to_set, to_clear, HIDDEN, Attribute::Conceal, Attribute::ConcealOff, 2);
    lemma_toggle_slot(to_set, to_clear, ITALIC, Attribute::Italic, Attribute::ItalicOff, 3);
    lemma_blink_slot(to_set, to_clear, target);
    lemma_toggle_slot(to_set, to_clear, REVERSED, Attribute::Reverse, Attribute::ReverseOff, 5);
    lemma_toggle_slot(
        to_set,
        to_clear,
        UNDERLINED,
        Attribute::Underline,
        Attribute::UnderlineOff,
        6,
    );
    lemma_slots_chain(head, intensity, crossed, hidden, italic, blink, reversed, underlined);
    let m1 = intensity + crossed;
    let m2 = m1 + hidden;
    let m3 = m2 + italic;
    let m4 = m3 + blink;
    let m5 = m4 + reversed;
    let m6 = m5 + underlined;
    assert(m6 == modifier_codes(previous, target));
    lemma_concat_behind(head, intensity, crossed);
    lemma_concat_behind(head, m1, hidden);
    lemma_concat_behind(head, m2, italic);
    lemma_concat_behind(head, m3, blink);
    lemma_concat_behind(head, m4, reversed);
    lemma_concat_behind(head, m5, underlined);
}

/// Putting two runs behind a third one after the other is putting them
/// behind it as one.
proof fn lemma_concat_behind(head: Seq<Command>, first: Seq<Command>, second: Seq<Command>)
    ensures
        head + (first + second) == head + first + second,
{
    assert(head + (first + second) =~= head + first + second);
}

/// Whether `codes` holds one sequence at most, and that one writes to the
/// slot `place`.
spec fn fills(codes: Seq<Command>, place: int) -> bool {
    codes.len() <= 1 && forall|i: int| 0 <= i < codes.len() ==> slot(#[trigger] codes[i]) == place
}

/// Runs of one sequence at most, one for each slot in turn, keep the slots
/// rising.
proof fn lemma_slots_chain(
    head: Seq<Command>,
    intensity: Seq<Command>,
    crossed: Seq<Command>,
    hidden: Seq<Command>,
    italic: Seq<Command>,
    blink: Seq<Command>,
    reversed: Seq<Command>,
    underlined: Seq<Command>,
)
    requires
        slots_rise(head, 0),
        fills(intensity, 0),
        fills(crossed, 1),
        fills(hidden, 2),
        fills(italic, 3),
        fills(blink, 4),
        fills(reversed, 5),
        fills(underlined, 6),
    ensures
        slots_rise(
            head + intensity + crossed + hidden + italic + blink + reversed + underlined,
            7,
        ),
{
    lemma_slots_rise(head, intensity, 0);
    lemma_slots_rise(head + intensity, crossed, 1);
    lemma_slots_rise(head + intensity + crossed, hidden, 2);
    lemma_slots_rise(head + intensity + crossed + hidden, italic, 3);
    lemma_slots_rise(head + intensity + crossed + hidden + italic, blink, 4);
    lemma_slots_rise(head + intensity + crossed + hidden + italic + blink, reversed, 5);
    lemma_slots_rise(
        head + intensity + crossed + hidden + italic + blink + reversed,
        underlined,
        6,
    );
}

/// A change of modifiers sends at most one sequence for each slot of the
/// terminal, in the order of the slots: at most one of "set bold", "set
/// faint" and "set normal", and never both "set blink" and "clear blink".
pub proof fn lemma_one_sequence_for_each_modifier(previous: Modifier, target: Modifier)
    ensures
        slots_rise(modifier_codes(previous, target), 7),
        forall|i: int, j: int|
            0 <= i < modifier_codes(previous, target).len() && 0 <= j < modifier_codes(
                previous,
                target,
            ).len() && i != j ==> slot(#[trigger] modifier_codes(previous, target)[i]) != slot(
                #[trigger] modifier_codes(previous, target)[j],
            ),
{
    let head = Seq::<Command>::empty();
    lemma_modifier_slots_rise(head, previous, target);
    let codes = modifier_codes(previous, target);
    assert(head + codes =~= codes);
    assert forall|i: int, j: int| 0 <= i < codes.len() && 0 <= j < codes.len() && i != j implies slot(
        #[trigger] codes[i],
    ) != slot(#[trigger] codes[j]) by {
        if i < j {
            assert(slot(codes[i]) < slot(codes[j]));
        } else {
            assert(slot(codes[j]) < slot(codes[i]));
        }
    }
}

/// Whether a cell at column `x` of row `y` can be drawn: the coordinates
/// counted from 1, and the column to the right, must fit in 16 bits.
pub open spec fn drawable(x: u16, y: u16) -> bool {
    x < u16::MAX && y < u16::MAX
}

/// Whether every cell of `cells` that is not skipped can be drawn.
pub open spec fn all_drawable(cells: Seq<(u16, u16, Cell)>) -> bool {
    forall|i: int| 0 <= i < cells.len() && !(#[trigger] cells[i]).2.skip ==> drawable(
        cells[i].0,
        cells[i].1,
    )
}

/// An ANSI terminal backend. It queues what it encodes; the caller hands the
/// queue to the terminal with [`AnsiBackend::flush`].
pub struct AnsiBackend {
    pos: Option<Position>,
    style: Option<Style>,
    buf: Vec<u8>,
}

impl View for AnsiBackend {
    type V = Screen;

    closed spec fn view(&self) -> Screen {
        Screen { cursor: self.pos, style: self.style, output: self.buf@ }
    }
}

impl AnsiBackend {
    /// A backend that knows nothing of the terminal yet.
    pub fn new() -> (backend: AnsiBackend)
        ensures
            backend@ == Screen::unknown(),
    {
        AnsiBackend { pos: None, style: None, buf: Vec::new() }
    }

    /// Where the backend believes the cursor to be.
    pub fn cursor(&self) -> (pos: Option<Position>)
        ensures
            pos == self@.cursor,
    {
        self.pos
    }

    /// The style the backend believes to be in effect.
    pub fn style(&self) -> (style: Option<Style>)
        ensures
            style == self@.style,
    {
        self.style
    }

    /// The bytes queued for the terminal.
    pub fn pending(&self) -> (bytes: &Vec<u8>)
        ensures
            bytes@ == self@.output,
    {
        &self.buf
    }

    /// Queues one sequence.
    fn push(&mut self, command: Command)
        ensures
            final(self)@ == old(self)@.emit(seq![command]),
    {
        command.write_to(&mut self.buf);
        proof {
            lemma_commands_bytes_one(command);
        }
    }

    /// Moves the cursor to `new_pos`, unless it is known to be there.
    pub fn set_cursor_position(&mut self, new_pos: Position)
        requires
            drawable(new_pos.x, new_pos.y),
        ensures
            final(self)@ == old(self)@.move_to(new_pos),
    {
        let there = match self.pos {
            Some(pos) => pos.x == new_pos.x && pos.y == new_pos.y,
            None => false,
        };
        if there {
            proof {
                lemma_emit_nothing(self@);
            }
            return ;
        }
        self.push(Command::MoveCursorTo(new_pos.x + 1, new_pos.y + 1));
        self.pos = Some(new_pos);
    }

    /// The cursor's position. Where it is unknown, the cursor is first moved
    /// to the origin.
    pub fn get_cursor_position(&mut self) -> (pos: Position)
        ensures
            match old(self)@.cursor {
                Some(known) => pos == known && final(self)@ == old(self)@,
                None => pos == Position::spec_origin() && final(self)@ == old(self)@.move_to(
                    Position::spec_origin(),
                ),
            },
    {
        match self.pos {
            Some(pos) => pos,
            None => {
                let new_pos = Position::origin();
                self.set_cursor_position(new_pos);
                new_pos
            },
        }
    }

    /// Queues the sequence that hides the cursor.
    pub fn hide_cursor(&mut self)
        ensures
            final(self)@ == old(self)@.emit(seq![Command::HideCursor]),
    {
        self.push(Command::HideCursor);
    }

    /// Queues the sequence that shows the cursor.
    pub fn show_cursor(&mut self)
        ensures
            final(self)@ == old(self)@.emit(seq![Command::ShowCursor]),
    {
        self.push(Command::ShowCursor);
    }

    /// Rings the terminal's bell.
    pub fn beep(&mut self)
        ensures
            final(self)@ == (Screen { output: old(self)@.output.push(0x07u8), ..old(self)@ }),
    {
        self.buf.push(0x07u8);
    }
    /// Queues `on` where `flag` is newly set, `off` where it is newly
    /// cleared.
    fn toggle(
        &mut self,
        to_set: Modifier,
        to_clear: Modifier,
        flag: u16,
        on: Attribute,
        off: Attribute,
    )
        ensures
            final(self)@ == old(self)@.emit(toggle_codes(to_set, to_clear, flag, on, off)),
    {
        if to_set.contains(flag) {
            self.push(Command::SetAttribute(on));
        } else if to_clear.contains(flag) {
            self.push(Command::SetAttribute(off));
        } else {
            proof {
                lemma_emit_nothing(self@);
            }
        }
    }

    /// Queues the attribute sequences that turn the modifiers `previous`
    /// into `target`: nothing where they are the same, and one sequence at
    /// most for each slot of the terminal, in the order of the slots. The
    /// tracked cursor and style stay as they are.
    pub fn apply_modifiers(&mut self, previous: Modifier, target: Modifier)
        ensures
            final(self)@ == old(self)@.emit(modifier_codes(previous, target)),
            previous == target ==> final(self)@ == old(self)@,
            slots_rise(modifier_codes(previous, target), 7),
    {
        proof {
            lemma_one_sequence_for_each_modifier(previous, target);
            if previous == target {
                lemma_same_modifiers_send_nothing(previous);
                lemma_emit_nothing(self@);
            }
        }
        let to_set = target.difference(previous);
        let to_clear = previous.difference(target);
        let ghost start = self@;
        let ghost intensity = intensity_codes(to_set, to_clear);
        let ghost crossed = toggle_codes(
            to_set,
            to_clear,
            CROSSED_OUT,
            Attribute::Crossed,
            Attribute::CrossedOff,
        );
        let ghost hidden = toggle_codes(
            to_set,
            to_clear,
            HIDDEN,
            Attribute::Conceal,
            Attribute::ConcealOff,
        );
        let ghost italic = toggle_codes(
            to_set,
            to_clear,
            ITALIC,
            Attribute::Italic,
            Attribute::ItalicOff,
        );
        let ghost blink = blink_codes(to_set, to_clear, target);
        let ghost reversed = toggle_codes(
            to_set,
            to_clear,
            REVERSED,
            Attribute::Reverse,
            Attribute::ReverseOff,
        );
        let ghost underlined = toggle_codes(
            to_set,
            to_clear,
            UNDERLINED,
            Attribute::Underline,
            Attribute::UnderlineOff,
        );

        // Bold, faint and normal exclude each other.
        if to_set.contains(BOLD) {
            self.push(Command::SetAttribute(Attribute::Bold));
        } else if to_set.contains(DIM) {
            self.push(Command::SetAttribute(Attribute::Faint));
        } else if to_clear.contains(DIM) || to_clear.contains(BOLD) {
            self.push(Command::SetAttribute(Attribute::Normal));
        } else {
            proof {
                lemma_emit_nothing(self@);
            }
        }
        assert(self@ == start.emit(intensity));

        self.toggle(to_set, to_clear, CROSSED_OUT, Attribute::Crossed, Attribute::CrossedOff);
        self.toggle(to_set, to_clear, HIDDEN, Attribute::Conceal, Attribute::ConcealOff);
        self.toggle(to_set, to_clear, ITALIC, Attribute::Italic, Attribute::ItalicOff);
        proof {
            lemma_emit_twice(start, intensity, crossed);
            lemma_emit_twice(start, intensity + crossed, hidden);
            lemma_emit_twice(start, intensity + crossed + hidden, italic);
        }
        let ghost middle = self@;

        if to_set.contains(RAPID_BLINK) || to_set.contains(SLOW_BLINK) {
            self.push(Command::SetAttribute(Attribute::Blink));
        } else if (to_clear.contains(RAPID_BLINK) || to_clear.contains(SLOW_BLINK))
            && !target.contains(RAPID_BLINK) && !target.contains(SLOW_BLINK) {
            self.push(Command::SetAttribute(Attribute::BlinkOff));
        } else {
            proof {
                lemma_emit_nothing(self@);
            }
        }
        assert(self@ == middle.emit(blink));

        self.toggle(to_set, to_clear, REVERSED, Attribute::Reverse, Attribute::ReverseOff);
        self.toggle(to_set, to_clear, UNDERLINED, Attribute::Underline, Attribute::UnderlineOff);
        proof {
            lemma_emit_twice(start, intensity + crossed + hidden + italic, blink);
            lemma_emit_twice(start, intensity + crossed + hidden + italic + blink, reversed);
            lemma_emit_twice(
                start,
                intensity + crossed + hidden + italic + blink + reversed,
                underlined,
            );
        }
    }

    /// Queues the color sequences that turn the colors of `previous` into
    /// those of `target`, the background first.
    fn apply_colors(&mut self, previous: Style, target: Style)
        ensures
            final(self)@ == old(self)@.emit(color_codes(previous, target)),
    {
        let ghost start = self@;
        if previous.bg != target.bg {
            self.push(Command::SetBackgroundColor(ansi_color(target.bg)));
        } else {
            proof {
                lemma_emit_nothing(self@);
            }
        }
        let ghost bg = if previous.bg != target.bg {
            seq![Command::SetBackgroundColor(spec_ansi_color(target.bg))]
        } else {
            Seq::empty()
        };
        assert(self@ == start.emit(bg));
        if previous.fg != target.fg {
            self.push(Command::SetForegroundColor(ansi_color(target.fg)));
            proof {
                lemma_emit_twice(
                    start,
                    bg,
                    seq![Command::SetForegroundColor(spec_ansi_color(target.fg))],
                );
            }
        } else {
            proof {
                lemma_emit_nothing(self@);
                lemma_emit_twice(start, bg, Seq::empty());
            }
        }
    }

    /// Brings the terminal to the style `target`, with as few sequences as
    /// the style last sent allows. Where that style is unknown, the
    /// attributes are reset first.
    pub fn apply_style(&mut self, target: Style)
        ensures
            final(self)@ == old(self)@.apply_style(target),
    {
        let ghost start = self@;
        let previous = match self.style {
            Some(known) => {
                proof {
                    lemma_emit_nothing(self@);
                }
                known
            },
            None => {
                // The style in effect is unknown: reset it to be safe.
                self.push(Command::ResetAttributes);
                Style::reset()
            },
        };
        let ghost head = if start.style is None {
            seq![Command::ResetAttributes]
        } else {
            Seq::empty()
        };
        assert(self@ == start.emit(head));
        self.apply_modifiers(previous.effective(), target.effective());
        self.apply_colors(previous, target);
        self.style = Some(target);
        proof {
            let modifiers = modifier_codes(previous.spec_effective(), target.spec_effective());
            let colors = color_codes(previous, target);
            lemma_emit_twice(start, head, modifiers);
            lemma_emit_twice(start, head + modifiers, colors);
            assert(head + modifiers + colors =~= style_codes(start.style, target));
        }
    }

    /// Draws one cell at column `x` of row `y`: moves the cursor there
    /// unless it is there, brings the style to the cell's, and queues the
    /// cell's text. A skipped cell is left alone.
    pub fn draw_cell(&mut self, x: u16, y: u16, cell: &Cell)
        requires
            !cell.skip ==> drawable(x, y),
        ensures
            final(self)@ == old(self)@.put_cell(x, y, *cell),
            cell.skip ==> final(self)@ == old(self)@,
    {
        if cell.skip {
            return ;
        }
        self.set_cursor_position(Position { x, y });
        self.apply_style(cell.style());
        let ghost styled = self@;
        self.buf.extend_from_slice(cell.symbol.as_str().as_bytes());
        // The text is taken to be one column wide.
        self.pos = Some(Position { x: x + 1, y });
        assert(self@.output =~= styled.output + vstd::utf8::encode_utf8(cell.symbol@));
    }

    /// Draws one frame: encodes the cells of `content`, in order, then takes
    /// all that is queued, for the caller to write to the terminal in one
    /// piece. The style in effect counts as unknown at the start of the
    /// frame. With nothing queued there is nothing to write.
    pub fn draw(&mut self, content: &Vec<(u16, u16, Cell)>) -> (bytes: Option<Vec<u8>>)
        requires
            all_drawable(content@),
        ensures
            final(self)@ == old(self)@.draw(content@).flushed(),
            old(self)@.draw(content@).output.len() == 0 <==> bytes is None,
            bytes matches Some(taken) ==> taken@ == old(self)@.draw(content@).output,
    {
        self.style = None;
        let ghost start = self@;
        let mut i: usize = 0;
        while i < content.len()
            invariant
                i <= content.len(),
                all_drawable(content@),
                self@ == start.put_cells(content@.take(i as int)),
            decreases content.len() - i,
        {
            let item = &content[i];
            assert(content@[i as int] == *item);
            proof {
                assert(content@.take(i + 1).drop_last() =~= content@.take(i as int));
                assert(content@.take(i + 1).last() == content@[i as int]);
            }
            self.draw_cell(item.0, item.1, &item.2);
            i += 1;
        }
        assert(content@.take(i as int) =~= content@);
        self.flush()
    }

    /// Resets the attributes, then clears the whole screen. The order
    /// matters: a background color still in effect would fill the screen.
    pub fn clear(&mut self)
        ensures
            final(self)@ == old(self)@.clear(),
    {
        let ghost start = self@;
        self.push(Command::ResetAttributes);
        self.push(Command::ClearBuffer);
        self.style = Some(Style::reset());
        proof {
            lemma_emit_twice(start, seq![Command::ResetAttributes], seq![Command::ClearBuffer]);
            assert(seq![Command::ResetAttributes] + seq![Command::ClearBuffer] =~= seq![
                Command::ResetAttributes,
                Command::ClearBuffer,
            ]);
        }
    }

    /// Enters the alternate screen: switches to it, moves the cursor to the
    /// origin, resets the attributes and clears the screen. Every sequence
    /// is sent, whatever the backend knew before.
    pub fn exclusive(&mut self)
        ensures
            final(self)@ == old(self)@.enter_exclusive(),
    {
        let ghost start = self@;
        self.push(Command::SwitchBufferToAlternate);
        self.push(Command::MoveCursorTo(1, 1));
        self.pos = Some(Position::origin());
        let ghost moved = self@;
        self.clear();
        proof {
            let switch = seq![Command::SwitchBufferToAlternate];
            let home = seq![Command::MoveCursorTo(1, 1)];
            let wipe = seq![Command::ResetAttributes, Command::ClearBuffer];
            lemma_emit_twice(start, switch, home);
            lemma_emit_twice(start, switch + home, wipe);
            assert(switch + home + wipe =~= enter_codes());
        }
    }

    /// Leaves the alternate screen: moves the cursor to the origin, resets
    /// the attributes, clears the screen and switches back. Every sequence
    /// is sent, whatever the backend knew before.
    pub fn normal(&mut self)
        ensures
            final(self)@ == old(self)@.leave_exclusive(),
    {
        let ghost start = self@;
        self.push(Command::MoveCursorTo(1, 1));
        self.pos = Some(Position::origin());
        self.clear();
        self.push(Command::SwitchBufferToNormal);
        proof {
            let home = seq![Command::MoveCursorTo(1, 1)];
            let wipe = seq![Command::ResetAttributes, Command::ClearBuffer];
            let switch = seq![Command::SwitchBufferToNormal];
            lemma_emit_twice(start, home, wipe);
            lemma_emit_twice(start, home + wipe, switch);
            assert(home + wipe + switch =~= leave_codes());
        }
    }

    /// Starts a session: enters the alternate screen and clears it.
    pub fn start_session(&mut self)
        ensures
            final(self)@ == old(self)@.enter_exclusive().clear(),
    {
        self.exclusive();
        self.clear();
    }

    /// Ends a session: clears the screen, leaves the alternate screen and
    /// takes all that is queued, for the caller to write to the terminal.
    /// This is to run once at the end of every session, also after a
    /// failure.
    pub fn end_session(&mut self) -> (bytes: Option<Vec<u8>>)
        ensures
            final(self)@ == old(self)@.clear().leave_exclusive().flushed(),
            bytes matches Some(taken) && taken@ == old(self)@.clear().leave_exclusive().output,
    {
        self.clear();
        self.normal();
        proof {
            lemma_commands_bytes_one(Command::SwitchBufferToNormal);
            lemma_commands_bytes_concat(
                seq![Command::MoveCursorTo(1, 1), Command::ResetAttributes, Command::ClearBuffer],
                seq![Command::SwitchBufferToNormal],
            );
            assert(seq![
                Command::MoveCursorTo(1, 1),
                Command::ResetAttributes,
                Command::ClearBuffer,
            ] + seq![Command::SwitchBufferToNormal] =~= leave_codes());
            assert(commands_bytes(leave_codes()).len() > 0);
        }
        self.flush()
    }

    /// Takes the queued bytes, for the caller to write to the terminal in
    /// one piece. With nothing queued there is nothing to write.
    pub fn flush(&mut self) -> (bytes: Option<Vec<u8>>)
        ensures
            final(self)@ == old(self)@.flushed(),
            old(self)@.output.len() == 0 <==> bytes is None,
            bytes matches Some(taken) ==> taken@ == old(self)@.output,
    {
        if self.buf.is_empty() {
            assert(self@.output =~= Seq::<u8>::empty());
            return None;
        }
        let mut bytes: Vec<u8> = Vec::new();
        std::mem::swap(&mut bytes, &mut self.buf);
        Some(bytes)
    }
}

} // verus!
