//! How many lines the conversation takes on screen, and how far to scroll
//! so that a message is in view.

use vstd::prelude::*;
use vstd::string::*;
use crate::chat::{
    ChatMessage, ChatMessageView, MessageContent, MessageContentView, ToolContent,
    ToolContentView,
};
use crate::input::{count_lines, lines_count_spec};
use crate::text::{chars_of, str_eq};

verus! {

/// Columns that a message's text is wrapped to.
pub const DISPLAY_WIDTH: usize = 70;

/// Columns that the input and the output of a tool are wrapped to.
pub const TOOL_WIDTH: usize = 64;

/// Lines of the message area that are in view.
pub const VIEW_HEIGHT: usize = 20;

/// What is shown for a tool that was called without arguments.
pub const NO_PARAMETERS: &'static str = "No parameters";

/// The arguments of a tool that was called without any.
pub const NULL_INPUT: &'static str = "null";

/// What `textwrap::fill` returns for a text and a width: the text with
/// line breaks put in so that no line is wider, as far as its words allow.
pub uninterp spec fn fill_spec(text: Seq<char>, width: usize) -> Seq<char>;

/// Calls `textwrap::fill` with a width, and names what it returns.
#[verifier::external_body]
fn fill_text(text: &str, width: usize) -> (r: String)
    ensures
        r@ == fill_spec(text@, width),
{
    textwrap::fill(text, width)
}

/// A count of lines as far as it can be held: capped at the largest number.
pub open spec fn clip(n: int) -> usize {
    if n > usize::MAX {
        usize::MAX
    } else if n < 0 {
        0
    } else {
        n as usize
    }
}

fn add_capped(a: usize, b: usize) -> (r: usize)
    ensures
        r == clip(a + b),
{
    match a.checked_add(b) {
        Some(sum) => sum,
        None => usize::MAX,
    }
}

/// Number of lines of a text once it is wrapped to a width.
pub open spec fn wrapped_lines(text: Seq<char>, width: usize) -> int {
    lines_count_spec(fill_spec(text, width))
}

pub proof fn lemma_lines_count_nonnegative(text: Seq<char>)
    ensures
        lines_count_spec(text) >= 0,
{
    crate::input::lemma_newline_count_bounds(text);
}

/// Number of lines of a text once it is wrapped to a width.
pub fn count_wrapped_lines(text: &str, width: usize) -> (r: usize)
    ensures
        r == wrapped_lines(text@, width),
{
    let filled = fill_text(text, width);
    let chars = chars_of(filled.as_str());
    count_lines(&chars)
}

/// What is shown for the arguments of a tool.
pub open spec fn shown_input(input: Seq<char>) -> Seq<char> {
    if input == NULL_INPUT@ {
        NO_PARAMETERS@
    } else {
        input
    }
}

/// Lines that one piece of a tool's output takes: a label and the wrapped
/// text, or a single line for anything that is no text.
pub open spec fn tool_content_lines(content: ToolContentView) -> int {
    match content {
        ToolContentView::Text { text } => 1 + wrapped_lines(text, TOOL_WIDTH),
        _ => 1,
    }
}

pub open spec fn tool_contents_lines(contents: Seq<ToolContentView>) -> int
    decreases contents.len(),
{
    if contents.len() == 0 {
        0
    } else {
        tool_contents_lines(contents.drop_last()) + tool_content_lines(contents.last())
    }
}

/// Lines that one block of content takes: the wrapped text; for a tool
/// call a header, the id, a label and the wrapped arguments; for a tool's
/// result a header, the id and the pieces of output.
pub open spec fn content_lines(content: MessageContentView) -> int {
    match content {
        MessageContentView::Text { text } => wrapped_lines(text, DISPLAY_WIDTH),
        MessageContentView::ToolUse { input, .. } => 3 + wrapped_lines(
            shown_input(input),
            TOOL_WIDTH,
        ),
        MessageContentView::ToolResult { content, .. } => 2 + tool_contents_lines(content),
    }
}

pub open spec fn contents_lines(contents: Seq<MessageContentView>) -> int
    decreases contents.len(),
{
    if contents.len() == 0 {
        0
    } else {
        contents_lines(contents.drop_last()) + content_lines(contents.last())
    }
}

/// Lines that an entry takes: the author's header, the content, a line of
/// token counts for a completion, and an empty line behind it.
pub open spec fn message_lines(message: ChatMessageView) -> int {
    1 + contents_lines(message.entry.message().content) + if message.entry is Completion {
        1int
    } else {
        0int
    } + 1
}

/// Lines that the conversation takes.
pub open spec fn total_lines_spec(messages: Seq<ChatMessageView>) -> int
    decreases messages.len(),
{
    if messages.len() == 0 {
        0
    } else {
        total_lines_spec(messages.drop_last()) + message_lines(messages.last())
    }
}

pub proof fn lemma_tool_contents_lines_nonnegative(contents: Seq<ToolContentView>)
    ensures
        tool_contents_lines(contents) >= 0,
    decreases contents.len(),
{
    if contents.len() > 0 {
        lemma_tool_contents_lines_nonnegative(contents.drop_last());
        match contents.last() {
            ToolContentView::Text { text } => {
                lemma_lines_count_nonnegative(fill_spec(text, TOOL_WIDTH));
            },
            _ => {},
        }
    }
}

pub proof fn lemma_content_lines_nonnegative(content: MessageContentView)
    ensures
        content_lines(content) >= 0,
{
    match content {
        MessageContentView::Text { text } => {
            lemma_lines_count_nonnegative(fill_spec(text, DISPLAY_WIDTH));
        },
        MessageContentView::ToolUse { input, .. } => {
            lemma_lines_count_nonnegative(fill_spec(shown_input(input), TOOL_WIDTH));
        },
        MessageContentView::ToolResult { content, .. } => {
            lemma_tool_contents_lines_nonnegative(content);
        },
    }
}

pub proof fn lemma_contents_lines_nonnegative(contents: Seq<MessageContentView>)
    ensures
        contents_lines(contents) >= 0,
    decreases contents.len(),
{
    if contents.len() > 0 {
        lemma_contents_lines_nonnegative(contents.drop_last());
        lemma_content_lines_nonnegative(contents.last());
    }
}

pub proof fn lemma_total_lines_nonnegative(messages: Seq<ChatMessageView>)
    ensures
        total_lines_spec(messages) >= 0,
    decreases messages.len(),
{
    if messages.len() > 0 {
        lemma_total_lines_nonnegative(messages.drop_last());
        lemma_contents_lines_nonnegative(messages.last().entry.message().content);
    }
}

fn count_tool_contents_lines(contents: &Vec<ToolContent>) -> (r: usize)
    ensures
        r == clip(tool_contents_lines(contents.deep_view())),
{
    let ghost all = contents.deep_view();
    let mut total: usize = 0;
    let mut i: usize = 0;
    assert(all.take(0) =~= Seq::<ToolContentView>::empty());
    while i < contents.len()
        invariant
            i <= contents.len(),
            all == contents.deep_view(),
            total == clip(tool_contents_lines(all.take(i as int))),
        decreases contents.len() - i,
    {
        proof {
            assert(all.take(i + 1).drop_last() =~= all.take(i as int));
            assert(all.take(i + 1).last() == all[i as int]);
            lemma_tool_contents_lines_nonnegative(all.take(i as int));
            lemma_tool_contents_lines_nonnegative(all.take(i + 1));
        }
        match &contents[i] {
            ToolContent::Text { text } => {
                total = add_capped(total, 1);
                total = add_capped(total, count_wrapped_lines(text.as_str(), TOOL_WIDTH));
                proof {
                    lemma_lines_count_nonnegative(fill_spec(text@, TOOL_WIDTH));
                }
            },
            _ => {
                total = add_capped(total, 1);
            },
        }
        i += 1;
    }
    assert(all.take(i as int) =~= all);
    total
}

fn count_content_lines(content: &MessageContent) -> (r: usize)
    ensures
        r == clip(content_lines(content.deep_view())),
{
    match content {
        MessageContent::Text { text } => {
            proof {
                lemma_lines_count_nonnegative(fill_spec(text@, DISPLAY_WIDTH));
            }
            count_wrapped_lines(text.as_str(), DISPLAY_WIDTH)
        },
        MessageContent::ToolUse { input, .. } => {
            let lines = if str_eq(input.as_str(), NULL_INPUT) {
                count_wrapped_lines(NO_PARAMETERS, TOOL_WIDTH)
            } else {
                count_wrapped_lines(input.as_str(), TOOL_WIDTH)
            };
            proof {
                lemma_lines_count_nonnegative(fill_spec(shown_input(input@), TOOL_WIDTH));
            }
            add_capped(3, lines)
        },
        MessageContent::ToolResult { content, .. } => {
            proof {
                lemma_tool_contents_lines_nonnegative(content.deep_view());
            }
            add_capped(2, count_tool_contents_lines(content))
        },
    }
}

fn count_contents_lines(contents: &Vec<MessageContent>) -> (r: usize)
    ensures
        r == clip(contents_lines(contents.deep_view())),
{
    let ghost all = contents.deep_view();
    let mut total: usize = 0;
    let mut i: usize = 0;
    assert(all.take(0) =~= Seq::<MessageContentView>::empty());
    while i < contents.len()
        invariant
            i <= contents.len(),
            all == contents.deep_view(),
            total == clip(contents_lines(all.take(i as int))),
        decreases contents.len() - i,
    {
        proof {
            assert(all.take(i + 1).drop_last() =~= all.take(i as int));
            assert(all.take(i + 1).last() == all[i as int]);
            lemma_contents_lines_nonnegative(all.take(i as int));
            lemma_content_lines_nonnegative(all[i as int]);
        }
        total = add_capped(total, count_content_lines(&contents[i]));
        i += 1;
    }
    assert(all.take(i as int) =~= all);
    total
}

/// Lines that an entry takes.
pub fn count_message_lines(message: &ChatMessage) -> (r: usize)
    ensures
        r == clip(message_lines(message.deep_view())),
{
    let shown = message.as_message();
    proof {
        lemma_contents_lines_nonnegative(shown.content.deep_view());
    }
    let mut total = add_capped(1, count_contents_lines(&shown.content));
    if message.is_completion() {
        total = add_capped(total, 1);
    }
    add_capped(total, 1)
}

/// Lines that the conversation takes.
pub fn calculate_total_display_lines(messages: &Vec<ChatMessage>) -> (r: usize)
    ensures
        r == clip(total_lines_spec(messages.deep_view())),
{
    let ghost all = messages.deep_view();
    let mut total: usize = 0;
    let mut i: usize = 0;
    assert(all.take(0) =~= Seq::<ChatMessageView>::empty());
    while i < messages.len()
        invariant
            i <= messages.len(),
            all == messages.deep_view(),
            total == clip(total_lines_spec(all.take(i as int))),
        decreases messages.len() - i,
    {
        proof {
            assert(all.take(i + 1).drop_last() =~= all.take(i as int));
            assert(all.take(i + 1).last() == all[i as int]);
            lemma_total_lines_nonnegative(all.take(i as int));
            lemma_contents_lines_nonnegative(all[i as int].entry.message().content);
        }
        total = add_capped(total, count_message_lines(&messages[i]));
        i += 1;
    }
    assert(all.take(i as int) =~= all);
    total
}

/// The lines that a block of content is taken to need when a message is
/// looked for: a line for each full width of text and one more, six for a
/// tool call, three and two for each piece of output for a tool's result.
pub open spec fn estimated_content_lines(content: MessageContentView) -> int {
    match content {
        MessageContentView::Text { text } => (vstd::utf8::encode_utf8(text).len() as usize) as int
            / (DISPLAY_WIDTH as int) + 1,
        MessageContentView::ToolUse { .. } => 6,
        MessageContentView::ToolResult { content, .. } => 3 + (content.len() as int) * 2,
    }
}

pub open spec fn estimated_contents_lines(contents: Seq<MessageContentView>) -> int
    decreases contents.len(),
{
    if contents.len() == 0 {
        0
    } else {
        estimated_contents_lines(contents.drop_last()) + estimated_content_lines(contents.last())
    }
}

/// The lines that an entry is taken to need when a message is looked for.
pub open spec fn estimated_message_lines(message: ChatMessageView) -> int {
    1 + estimated_contents_lines(message.entry.message().content) + if message.entry
        is Completion {
        1int
    } else {
        0int
    } + 1
}

/// The line at which the message at position `index` is taken to begin.
pub open spec fn estimated_start(messages: Seq<ChatMessageView>, index: int) -> int
    decreases index,
{
    if index <= 0 || index > messages.len() {
        0
    } else {
        estimated_start(messages, index - 1) + estimated_message_lines(messages[index - 1])
    }
}

pub proof fn lemma_estimated_contents_nonnegative(contents: Seq<MessageContentView>)
    ensures
        estimated_contents_lines(contents) >= 0,
    decreases contents.len(),
{
    if contents.len() > 0 {
        lemma_estimated_contents_nonnegative(contents.drop_last());
    }
}

pub proof fn lemma_estimated_start_nonnegative(messages: Seq<ChatMessageView>, index: int)
    ensures
        estimated_start(messages, index) >= 0,
    decreases index,
{
    if 0 < index <= messages.len() {
        lemma_estimated_start_nonnegative(messages, index - 1);
        lemma_estimated_contents_nonnegative(messages[index - 1].entry.message().content);
    }
}

fn estimate_contents_lines(contents: &Vec<MessageContent>) -> (r: usize)
    ensures
        r == clip(estimated_contents_lines(contents.deep_view())),
{
    let ghost all = contents.deep_view();
    let mut total: usize = 0;
    let mut i: usize = 0;
    assert(all.take(0) =~= Seq::<MessageContentView>::empty());
    while i < contents.len()
        invariant
            i <= contents.len(),
            all == contents.deep_view(),
            total == clip(estimated_contents_lines(all.take(i as int))),
        decreases contents.len() - i,
    {
        proof {
            assert(all.take(i + 1).drop_last() =~= all.take(i as int));
            assert(all.take(i + 1).last() == all[i as int]);
            lemma_estimated_contents_nonnegative(all.take(i as int));
        }
        let lines = match &contents[i] {
            MessageContent::Text { text } => {
                let bytes = text.as_str().len();
                assert(bytes == vstd::utf8::encode_utf8(text@).len() as usize);
                assert((bytes as int) / (DISPLAY_WIDTH as int) >= 0);
                add_capped(bytes / DISPLAY_WIDTH, 1)
            },
            MessageContent::ToolUse { .. } => 6,
            MessageContent::ToolResult { content, .. } => {
                assert(content.deep_view().len() == content.len());
                let twice = match content.len().checked_mul(2) {
                    Some(n) => n,
                    None => usize::MAX,
                };
                add_capped(3, twice)
            },
        };
        assert(estimated_content_lines(all[i as int]) >= 0);
        assert(lines == clip(estimated_content_lines(all[i as int])));
        total = add_capped(total, lines);
        i += 1;
    }
    assert(all.take(i as int) =~= all);
    total
}

/// The line at which the message at position `index` is taken to begin.
pub fn estimate_start_line(messages: &Vec<ChatMessage>, index: usize) -> (r: usize)
    requires
        index <= messages.len(),
    ensures
        r == clip(estimated_start(messages.deep_view(), index as int)),
{
    let ghost all = messages.deep_view();
    let mut total: usize = 0;
    let mut i: usize = 0;
    while i < index
        invariant
            i <= index <= messages.len(),
            all == messages.deep_view(),
            total == clip(estimated_start(all, i as int)),
        decreases index - i,
    {
        proof {
            lemma_estimated_start_nonnegative(all, i as int);
            lemma_estimated_contents_nonnegative(all[i as int].entry.message().content);
        }
        let shown = messages[i].as_message();
        let mut lines = add_capped(1, estimate_contents_lines(&shown.content));
        if messages[i].is_completion() {
            lines = add_capped(lines, 1);
        }
        lines = add_capped(lines, 1);
        total = add_capped(total, lines);
        i += 1;
    }
    total
}

/// The difference of two counts, or zero where the second is the larger.
pub open spec fn minus(a: usize, b: usize) -> usize {
    if a >= b {
        (a - b) as usize
    } else {
        0
    }
}

fn sub_floor(a: usize, b: usize) -> (r: usize)
    ensures
        r == minus(a, b),
{
    if a >= b {
        a - b
    } else {
        0
    }
}

/// The scroll offset that brings a message into view. The offset counts
/// lines from the end of the conversation: at zero the most recent lines
/// are in view. A conversation that fits the view is not scrolled. A
/// message that begins above the view is scrolled down to, one that begins
/// below it is scrolled up to, and for one in view the offset stays.
pub open spec fn scroll_to_show(start: usize, total: usize, scroll: usize) -> usize {
    if total <= VIEW_HEIGHT {
        scroll
    } else if start < minus(minus(total, VIEW_HEIGHT), scroll) {
        minus(minus(total, VIEW_HEIGHT), start)
    } else if start >= minus(total, scroll) {
        minus(minus(total, start), VIEW_HEIGHT)
    } else {
        scroll
    }
}

pub fn scroll_for(start: usize, total: usize, scroll: usize) -> (r: usize)
    ensures
        r == scroll_to_show(start, total, scroll),
{
    if total <= VIEW_HEIGHT {
        scroll
    } else if start < sub_floor(sub_floor(total, VIEW_HEIGHT), scroll) {
        sub_floor(sub_floor(total, VIEW_HEIGHT), start)
    } else if start >= sub_floor(total, scroll) {
        sub_floor(sub_floor(total, start), VIEW_HEIGHT)
    } else {
        scroll
    }
}

/// The scroll offset after scrolling up by a line: one more, as long as
/// older lines are out of view.
pub open spec fn scrolled_up(total: usize, scroll: usize) -> usize {
    if total > VIEW_HEIGHT && scroll < total - VIEW_HEIGHT {
        (scroll + 1) as usize
    } else {
        scroll
    }
}

pub fn scroll_up_by_line(total: usize, scroll: usize) -> (r: usize)
    ensures
        r == scrolled_up(total, scroll),
{
    if total > VIEW_HEIGHT && scroll < total - VIEW_HEIGHT {
        scroll + 1
    } else {
        scroll
    }
}

/// Number of blocks of a message that call a tool or carry a tool's
/// result.
pub open spec fn tool_blocks(contents: Seq<MessageContentView>) -> int
    decreases contents.len(),
{
    if contents.len() == 0 {
        0
    } else {
        tool_blocks(contents.drop_last()) + if contents.last().is_tool_block() {
            1int
        } else {
            0int
        }
    }
}

/// From how many tool blocks on a message is collapsed by itself.
pub const TOOL_HEAVY: usize = 3;

/// Whether a message holds so many tool blocks that it is collapsed by
/// itself.
pub fn is_tool_heavy(message: &ChatMessage) -> (r: bool)
    ensures
        r == (tool_blocks(message.deep_view().entry.message().content) >= TOOL_HEAVY),
{
    let shown = message.as_message();
    let ghost all = shown.content.deep_view();
    let mut count: usize = 0;
    let mut i: usize = 0;
    assert(all.take(0) =~= Seq::<MessageContentView>::empty());
    while i < shown.content.len()
        invariant
            i <= shown.content.len(),
            all == shown.content.deep_view(),
            count == tool_blocks(all.take(i as int)),
            count <= i,
        decreases shown.content.len() - i,
    {
        proof {
            assert(all.take(i + 1).drop_last() =~= all.take(i as int));
            assert(all.take(i + 1).last() == all[i as int]);
        }
        match &shown.content[i] {
            MessageContent::ToolUse { .. } => {
                count += 1;
            },
            MessageContent::ToolResult { .. } => {
                count += 1;
            },
            _ => {},
        }
        i += 1;
    }
    assert(all.take(i as int) =~= all);
    count >= TOOL_HEAVY
}

} // verus!
