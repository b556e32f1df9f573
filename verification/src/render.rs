//! The render loop's decisions: what is drawn for a message, where, and in
//! which order.
//!
//! The display is driven elsewhere; this module says what to do with it. A
//! message becomes one fixed sequence of operations: clear the surface, draw
//! the sender in capitals in the header, draw the body row by row below it,
//! flush.

use vstd::prelude::*;
use crate::adapter::{configured, is_identifier, local_part, resolved, Lookup, Member};
use crate::channel::{ChannelState, DeliveryChannel};
use crate::layout::{layout, lines, row_texts, texts};
use crate::message::{Message, MessageView};

verus! {

/// Width of the display, in pixels.
pub const DISPLAY_WIDTH: u32 = 128;

/// Height of the display, in pixels.
pub const DISPLAY_HEIGHT: u32 = 64;

/// Width of a glyph cell.
pub const GLYPH_WIDTH: u32 = 5;

/// Height of a glyph cell, which is also the distance between two rows.
pub const GLYPH_HEIGHT: u32 = 7;

/// Empty columns between two glyphs.
pub const GLYPH_SPACING: u32 = 0;

/// Distance from the top of a glyph cell down to the baseline.
pub const GLYPH_BASELINE: u32 = 5;

/// The header is drawn with its baseline this far down.
pub const HEADER_BASELINE: i32 = 7;

/// The body starts this far down, clear of the header.
pub const BODY_TOP: i32 = 9;

/// The measures of the font's glyph cell.
#[derive(Clone, Copy, Debug, PartialEq, Eq)]
pub struct GlyphMetrics {
    pub width: u32,
    pub height: u32,
    pub spacing: u32,
    pub baseline: u32,
}

/// Reads the measures of `embedded_graphics::mono_font::ascii::FONT_5X7`: a
/// cell of 5 by 7 pixels, no spacing between glyphs, and the baseline 5
/// pixels below the top of the cell.
#[verifier::external_body]
fn font_5x7() -> (glyph: GlyphMetrics)
    ensures
        glyph.width == 5,
        glyph.height == 7,
        glyph.spacing == 0,
        glyph.baseline == 5,
{
    let font = embedded_graphics::mono_font::ascii::FONT_5X7;
    GlyphMetrics {
        width: font.character_size.width,
        height: font.character_size.height,
        spacing: font.character_spacing,
        baseline: font.baseline,
    }
}

/// The measures of the glyphs that the display is drawn with.
pub fn glyph_metrics() -> (glyph: GlyphMetrics)
    ensures
        glyph.width == GLYPH_WIDTH,
        glyph.height == GLYPH_HEIGHT,
        glyph.spacing == GLYPH_SPACING,
        glyph.baseline == GLYPH_BASELINE,
{
    font_5x7()
}

/// How many glyphs fit side by side in `bound` pixels: `n` glyphs take
/// `n * width + (n - 1) * spacing` pixels.
pub open spec fn glyphs_that_fit(bound: int, width: int, spacing: int) -> int {
    (bound + spacing) / (width + spacing)
}

/// How many glyphs fit side by side in `bound` pixels.
pub fn glyphs_per_line(bound: u32, glyph: &GlyphMetrics) -> (count: usize)
    requires
        glyph.width > 0,
    ensures
        count == glyphs_that_fit(bound as int, glyph.width as int, glyph.spacing as int),
{
    let room: u64 = bound as u64 + glyph.spacing as u64;
    let step: u64 = glyph.width as u64 + glyph.spacing as u64;
    let count: u64 = room / step;
    assert(count * step <= room) by (nonlinear_arith)
        requires
            count == room / step,
            step > 0,
    ;
    assert(count <= bound) by (nonlinear_arith)
        requires
            count * step <= room,
            step == glyph.width + glyph.spacing,
            room == bound + glyph.spacing,
            glyph.width >= 1,
    ;
    count as usize
}

/// The number of characters on a full line of the display.
pub open spec fn line_capacity() -> int {
    glyphs_that_fit(DISPLAY_WIDTH as int, GLYPH_WIDTH as int, GLYPH_SPACING as int)
}

/// A line of the display holds 25 characters.
pub proof fn line_capacity_is_25()
    ensures
        line_capacity() == 25,
{
}

/// The ASCII capital of a character; any other character is left as it is.
pub open spec fn upper(c: char) -> char {
    if 'a' <= c && c <= 'z' {
        ((c as u8) - 32) as u8 as char
    } else {
        c
    }
}

/// The text with each character replaced by its ASCII capital.
pub open spec fn upper_text(text: Seq<char>) -> Seq<char> {
    text.map_values(|c: char| upper(c))
}

/// Calls `str::to_ascii_uppercase`: the letters `a` to `z` become `A` to `Z`,
/// every other character stays.
#[verifier::external_body]
fn ascii_uppercase(text: &str) -> (capitals: String)
    ensures
        capitals@ == upper_text(text@),
{
    text.to_ascii_uppercase()
}

/// What a [`TextRun`] stands for in contracts.
pub struct TextRunView {
    pub text: Seq<char>,
    pub x: int,
    pub y: int,
}

/// One piece of text to draw, with the position of the top left corner of its
/// first glyph.
#[derive(Debug, PartialEq, Eq)]
pub struct TextRun {
    pub text: String,
    pub x: i32,
    pub y: i32,
}

impl View for TextRun {
    type V = TextRunView;

    open spec fn view(&self) -> TextRunView {
        TextRunView { text: self.text@, x: self.x as int, y: self.y as int }
    }
}

/// What a [`DrawOp`] stands for in contracts.
pub enum DrawOpView {
    Init,
    Clear,
    Text(TextRunView),
    Flush,
}

/// One operation on the display.
#[derive(Debug, PartialEq, Eq)]
pub enum DrawOp {
    /// Initialise the device.
    Init,
    /// Blank the surface in memory.
    Clear,
    /// Draw a piece of text onto the surface in memory.
    Text(TextRun),
    /// Send the surface to the device.
    Flush,
}

impl View for DrawOp {
    type V = DrawOpView;

    open spec fn view(&self) -> DrawOpView {
        match self {
            DrawOp::Init => DrawOpView::Init,
            DrawOp::Clear => DrawOpView::Clear,
            DrawOp::Text(run) => DrawOpView::Text(run@),
            DrawOp::Flush => DrawOpView::Flush,
        }
    }
}

/// The operations as their views.
pub open spec fn op_views(ops: Seq<DrawOp>) -> Seq<DrawOpView> {
    ops.map_values(|op: DrawOp| op@)
}

/// Where the top of the header's glyphs lies.
pub open spec fn header_top() -> int {
    HEADER_BASELINE - GLYPH_BASELINE
}

/// Where the top of body row `index` lies. Rows follow one another without a
/// gap; a row beyond the reach of the coordinates stays at their limit.
pub open spec fn row_top(index: int) -> int {
    if BODY_TOP + index * GLYPH_HEIGHT <= i32::MAX {
        BODY_TOP + index * GLYPH_HEIGHT
    } else {
        i32::MAX as int
    }
}

/// The header: the sender in capitals, at the top left.
pub open spec fn header_run(message: MessageView) -> TextRunView {
    TextRunView { text: upper_text(message.sender), x: 0, y: header_top() }
}

/// The body: one run for each row of the layout, one below the other.
pub open spec fn body_runs(message: MessageView) -> Seq<TextRunView> {
    let rows = row_texts(message.content, layout(message.content, line_capacity()));
    Seq::new(rows.len(), |i: int| TextRunView { text: rows[i], x: 0, y: row_top(i) })
}

/// Everything that is drawn for a message, header first.
pub open spec fn runs_of(message: MessageView) -> Seq<TextRunView> {
    seq![header_run(message)] + body_runs(message)
}

/// The operations that show a message: clear, the runs, flush.
pub open spec fn frame(message: MessageView) -> Seq<DrawOpView> {
    seq![DrawOpView::Clear] + runs_of(message).map_values(|run: TextRunView| DrawOpView::Text(run))
        + seq![DrawOpView::Flush]
}

fn top_of_row(index: usize, glyph: &GlyphMetrics) -> (y: i32)
    requires
        glyph.height == GLYPH_HEIGHT,
    ensures
        y == row_top(index as int),
{
    let reach: u64 = (i32::MAX - BODY_TOP) as u64 / (glyph.height as u64);
    if index as u64 <= reach {
        (BODY_TOP as u64 + index as u64 * glyph.height as u64) as i32
    } else {
        i32::MAX
    }
}

/// The operations that show `message` on the display.
pub fn render(message: &Message) -> (ops: Vec<DrawOp>)
    ensures
        op_views(ops@) == frame(message@),
{
    let glyph = glyph_metrics();
    let capacity = glyphs_per_line(DISPLAY_WIDTH, &glyph);
    let rows = lines(message.content(), capacity);
    let ghost plan = row_texts(message@.content, layout(message@.content, line_capacity()));
    let ghost runs = runs_of(message@);
    let ghost wrap_run = |run: TextRunView| DrawOpView::Text(run);

    let mut ops: Vec<DrawOp> = Vec::new();
    ops.push(DrawOp::Clear);
    let header = TextRun {
        text: ascii_uppercase(message.sender()),
        x: 0,
        y: HEADER_BASELINE - glyph.baseline as i32,
    };
    ops.push(DrawOp::Text(header));
    assert(op_views(ops@) =~= seq![DrawOpView::Clear] + runs.take(1).map_values(wrap_run));

    let mut i: usize = 0;
    while i < rows.len()
        invariant
            i <= rows.len(),
            glyph.height == GLYPH_HEIGHT,
            texts(rows@) == plan,
            plan == row_texts(message@.content, layout(message@.content, line_capacity())),
            runs == runs_of(message@),
            wrap_run == |run: TextRunView| DrawOpView::Text(run),
            op_views(ops@) == seq![DrawOpView::Clear] + runs.take(i + 1).map_values(wrap_run),
        decreases rows.len() - i,
    {
        let run = TextRun { text: rows[i].clone(), x: 0, y: top_of_row(i, &glyph) };
        proof {
            assert(texts(rows@)[i as int] == rows@[i as int]@);
            assert(runs[i + 1] == body_runs(message@)[i as int]);
            assert(run@ == runs[i + 1]);
            assert(runs.take(i + 2) =~= runs.take(i + 1).push(run@));
            assert(op_views(ops@.push(DrawOp::Text(run))) =~= op_views(ops@).push(
                DrawOpView::Text(run@),
            ));
        }
        ops.push(DrawOp::Text(run));
        i += 1;
        assert(op_views(ops@) =~= seq![DrawOpView::Clear] + runs.take(i + 1).map_values(wrap_run));
    }
    assert(runs.take(i + 1) =~= runs);
    ops.push(DrawOp::Flush);
    assert(op_views(ops@) =~= frame(message@));
    ops
}

/// The operations that bring the display up: initialise the device, then
/// flush the surface, which is blank, so that the display shows nothing.
pub open spec fn startup_frame() -> Seq<DrawOpView> {
    seq![DrawOpView::Init, DrawOpView::Flush]
}

/// The operations that bring the display up.
pub fn startup() -> (ops: Vec<DrawOp>)
    ensures
        op_views(ops@) == startup_frame(),
{
    let mut ops: Vec<DrawOp> = Vec::new();
    ops.push(DrawOp::Init);
    ops.push(DrawOp::Flush);
    assert(op_views(ops@) =~= startup_frame());
    ops
}

/// What the render loop does after waiting on the channel.
#[derive(Debug, PartialEq, Eq)]
pub enum LoopStep {
    /// Perform these operations in order, then wait for the next message.
    Draw(Vec<DrawOp>),
    /// The channel is closed and drained: leave the loop, without error.
    Stop,
}

/// Decides the next step of the render loop from what the channel handed
/// over: a message is rendered in full, the end of the stream ends the loop.
pub fn next_step(received: Option<Message>) -> (step: LoopStep)
    ensures
        match received {
            Some(message) => step matches LoopStep::Draw(ops) && op_views(ops@) == frame(
                message@,
            ),
            None => step is Stop,
        },
{
    match received {
        Some(message) => LoopStep::Draw(render(&message)),
        None => LoopStep::Stop,
    }
}

/// Renders every message that waits in the channel, oldest first, each in
/// full before the next is taken, and leaves the channel empty. This is the
/// render loop for one who holds both ends of the channel and does not wait.
pub fn render_pending(channel: &mut DeliveryChannel) -> (frames: Vec<Vec<DrawOp>>)
    ensures
        final(channel)@ == (ChannelState { pending: Seq::empty(), ..old(channel)@ }),
        frames@.len() == old(channel)@.pending.len(),
        forall|i: int|
            0 <= i < frames@.len() ==> op_views((#[trigger] frames@[i])@) == frame(
                old(channel)@.pending[i],
            ),
{
    let mut frames: Vec<Vec<DrawOp>> = Vec::new();
    assert(channel@.pending.skip(0) =~= channel@.pending);
    loop
        invariant
            frames@.len() <= old(channel)@.pending.len(),
            channel@ == (ChannelState {
                pending: old(channel)@.pending.skip(frames@.len() as int),
                ..old(channel)@
            }),
            forall|i: int|
                0 <= i < frames@.len() ==> op_views((#[trigger] frames@[i])@) == frame(
                    old(channel)@.pending[i],
                ),
        ensures
            channel@.pending.len() == 0,
            frames@.len() == old(channel)@.pending.len(),
        decreases channel@.pending.len(),
    {
        let ghost before = channel@;
        match channel.take() {
            Some(message) => {
                let ops = render(&message);
                frames.push(ops);
                assert(before.pending.drop_first() =~= old(channel)@.pending.skip(
                    frames@.len() as int,
                ));
            },
            None => {
                break ;
            },
        }
    }
    assert(channel@.pending =~= Seq::empty());
    frames
}

/// What the failure of an operation does to the program.
#[derive(Clone, Copy, Debug, PartialEq, Eq)]
pub enum Failure {
    /// The device link is broken: the whole process stops at once.
    Abort,
    /// The render loop ends and hands the error to its caller.
    EndLoop,
}

/// The failure policy: the device is taken to be reliable, so a failed
/// initialisation or flush aborts the process; a run that cannot be drawn
/// ends the render loop with an error; clearing the surface cannot fail.
pub open spec fn failure_policy(op: DrawOpView) -> Option<Failure> {
    match op {
        DrawOpView::Init => Some(Failure::Abort),
        DrawOpView::Clear => None,
        DrawOpView::Text(_) => Some(Failure::EndLoop),
        DrawOpView::Flush => Some(Failure::Abort),
    }
}

/// What follows when `op` fails.
pub fn on_failure(op: &DrawOp) -> (failure: Option<Failure>)
    ensures
        failure == failure_policy(op@),
{
    match op {
        DrawOp::Init => Some(Failure::Abort),
        DrawOp::Clear => None,
        DrawOp::Text(_) => Some(Failure::EndLoop),
        DrawOp::Flush => Some(Failure::Abort),
    }
}

/// The display as the render loop sees it: what has been drawn onto the
/// surface in memory since it was last cleared, and what the device shows.
pub struct Surface {
    pub drawn: Seq<TextRunView>,
    pub shown: Seq<TextRunView>,
}

/// A surface on which nothing is drawn and nothing shown.
pub open spec fn blank() -> Surface {
    Surface { drawn: Seq::empty(), shown: Seq::empty() }
}

/// The surface after one operation.
pub open spec fn apply(surface: Surface, op: DrawOpView) -> Surface {
    match op {
        DrawOpView::Init => surface,
        DrawOpView::Clear => Surface { drawn: Seq::empty(), shown: surface.shown },
        DrawOpView::Text(run) => Surface { drawn: surface.drawn.push(run), shown: surface.shown },
        DrawOpView::Flush => Surface { drawn: surface.drawn, shown: surface.drawn },
    }
}

/// The surface after a sequence of operations.
pub open spec fn apply_all(surface: Surface, ops: Seq<DrawOpView>) -> Surface
    decreases ops.len(),
{
    if ops.len() == 0 {
        surface
    } else {
        apply(apply_all(surface, ops.drop_last()), ops.last())
    }
}

proof fn drawing_runs_after_clear(surface: Surface, runs: Seq<TextRunView>)
    ensures
        apply_all(
            surface,
            seq![DrawOpView::Clear] + runs.map_values(|run: TextRunView| DrawOpView::Text(run)),
        ) == (Surface { drawn: runs, shown: surface.shown }),
    decreases runs.len(),
{
    let wrap_run = |run: TextRunView| DrawOpView::Text(run);
    let ops = seq![DrawOpView::Clear] + runs.map_values(wrap_run);
    if runs.len() == 0 {
        assert(ops.drop_last() =~= Seq::empty());
        assert(apply_all(surface, ops.drop_last()) == surface);
        assert(runs =~= Seq::empty());
    } else {
        drawing_runs_after_clear(surface, runs.drop_last());
        assert(ops.drop_last() =~= seq![DrawOpView::Clear] + runs.drop_last().map_values(
            wrap_run,
        ));
        assert(ops.last() == DrawOpView::Text(runs.last()));
        assert(runs.drop_last().push(runs.last()) =~= runs);
    }
}

/// After a message is rendered, the surface and the device hold the runs of
/// that message and nothing else, whatever they held before.
pub proof fn rendering_shows_the_message(surface: Surface, message: MessageView)
    ensures
        apply_all(surface, frame(message)) == (Surface {
            drawn: runs_of(message),
            shown: runs_of(message),
        }),
{
    let ops = frame(message);
    let drawing = seq![DrawOpView::Clear] + runs_of(message).map_values(
        |run: TextRunView| DrawOpView::Text(run),
    );
    assert(ops.drop_last() =~= drawing);
    assert(ops.last() == DrawOpView::Flush);
    drawing_runs_after_clear(surface, runs_of(message));
}

/// Rendering is repeatable: the same message rendered from any two states of
/// the display ends in one and the same state, and rendering it a second time
/// changes nothing.
pub proof fn rendering_is_repeatable(first: Surface, second: Surface, message: MessageView)
    ensures
        apply_all(first, frame(message)) == apply_all(second, frame(message)),
        apply_all(apply_all(first, frame(message)), frame(message)) == apply_all(
            first,
            frame(message),
        ),
{
    rendering_shows_the_message(first, message);
    rendering_shows_the_message(second, message);
    rendering_shows_the_message(apply_all(first, frame(message)), message);
}

/// Starting up leaves the display blank.
pub proof fn startup_shows_nothing()
    ensures
        apply_all(blank(), startup_frame()) == blank(),
{
    let ops = startup_frame();
    assert(ops.drop_last() =~= seq![DrawOpView::Init]);
    assert(ops.drop_last().drop_last() =~= Seq::empty());
    assert(apply_all(blank(), ops.drop_last().drop_last()) == blank());
    assert(apply_all(blank(), ops.drop_last()) == blank());
}

/// Fallback: where the room holds no configured display name for the sender,
/// the header is the local part of the sender's identifier, in capitals.
pub proof fn header_falls_back_to_the_local_part(member: Member, body: Seq<char>)
    requires
        !configured(member@.display_name),
        is_identifier(member@.user_id),
    ensures
        resolved(body, Lookup::Found(member)) matches Ok(message) && header_run(message).text
            == upper_text(local_part(member@.user_id)),
{
}

/// Where the room holds a configured display name for the sender, the header
/// is that name in capitals, whatever the identifier.
pub proof fn header_is_the_display_name(member: Member, body: Seq<char>)
    requires
        configured(member@.display_name),
    ensures
        resolved(body, Lookup::Found(member)) matches Ok(message) && header_run(message).text
            == upper_text(member@.display_name->0),
{
}

} // verus!
