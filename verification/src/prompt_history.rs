//! The prompts that the user submitted in a thread, with their positions in it.

use std::ops::Range;

use vstd::prelude::*;

use crate::text::{
    decimal, decimal_is_injective, decimal_text, ellipsize, ellipsized, first_line,
    first_line_trimmed, trimmed, trimmed_end, trimmed_start, white_space,
};

verus! {

/// What a user message holds.
#[derive(Debug, PartialEq, Eq)]
pub enum ContentBlock {
    Empty,
    Markdown { source: String },
    ResourceLink { uri: String },
    Image,
}

/// A message of the user in a thread.
#[derive(Debug, PartialEq, Eq)]
pub struct UserMessage {
    /// Identity of the message at the agent, when the agent provides one.
    pub id: Option<String>,
    pub content: ContentBlock,
}

/// An entry of a thread.
#[derive(Debug, PartialEq, Eq)]
pub enum AgentThreadEntry {
    UserMessage(UserMessage),
    /// Whatever is not a message of the user.
    Other,
}

/// One captured user prompt.
#[derive(Clone, Debug, PartialEq, Eq)]
pub struct PromptHistoryEntry {
    /// Identity of the message at the agent, when the agent provides one.
    pub id: Option<String>,
    /// Position of the message in the thread.
    pub entry_index: usize,
    /// First line of the prompt, cut to the width of a row.
    pub preview: String,
    /// Full text of the prompt.
    pub full_text: String,
}

/// A captured prompt, its texts as sequences.
pub struct PromptView {
    pub id: Option<Seq<char>>,
    pub entry_index: int,
    pub preview: Seq<char>,
    pub full_text: Seq<char>,
}

impl View for PromptHistoryEntry {
    type V = PromptView;

    open spec fn view(&self) -> PromptView {
        PromptView {
            id: self.id.deep_view(),
            entry_index: self.entry_index as int,
            preview: self.preview@,
            full_text: self.full_text@,
        }
    }
}

/// The prompts captured for one thread, the oldest first.
#[derive(Debug)]
pub struct PromptHistory {
    entries: Vec<PromptHistoryEntry>,
}

/// The views of a sequence of captured prompts.
pub open spec fn prompt_views(entries: Seq<PromptHistoryEntry>) -> Seq<PromptView> {
    entries.map_values(|e: PromptHistoryEntry| e@)
}

impl View for PromptHistory {
    type V = Seq<PromptView>;

    closed spec fn view(&self) -> Seq<PromptView> {
        prompt_views(self.entries@)
    }
}

/// The text of a message: its source, or a placeholder in brackets for a link
/// or an image. An empty message has no text and no placeholder.
pub open spec fn content_text(content: ContentBlock) -> Seq<char> {
    match content {
        ContentBlock::Empty => Seq::empty(),
        ContentBlock::Markdown { source } => source@,
        ContentBlock::ResourceLink { uri } => "[file: "@ + uri@ + "]"@,
        ContentBlock::Image => "[image]"@,
    }
}

/// The row for a text: its first line without white space at the ends, cut to
/// `max` characters.
pub open spec fn preview_of(text: Seq<char>, max: nat) -> Seq<char> {
    ellipsized(trimmed(first_line(text)), max)
}

/// The prompt that the message at `index` gives.
pub open spec fn prompt_of(message: UserMessage, index: int, max: nat) -> PromptView {
    PromptView {
        id: message.id.deep_view(),
        entry_index: index,
        preview: preview_of(content_text(message.content), max),
        full_text: content_text(message.content),
    }
}

/// The prompts of `thread`, in its order.
pub open spec fn prompts_of(thread: Seq<AgentThreadEntry>, max: nat) -> Seq<PromptView>
    decreases thread.len(),
{
    if thread.len() == 0 {
        Seq::empty()
    } else {
        let before = prompts_of(thread.drop_last(), max);
        match thread.last() {
            AgentThreadEntry::UserMessage(message) => before.push(
                prompt_of(message, thread.len() - 1, max),
            ),
            AgentThreadEntry::Other => before,
        }
    }
}

/// `thread` without its entries from `start` up to but without `end`.
pub open spec fn without_range<A>(thread: Seq<A>, start: int, end: int) -> Seq<A> {
    thread.take(start) + thread.skip(end)
}

/// Where a prompt stands once the entries from `start` up to but without `end`
/// are gone.
pub open spec fn shifted(prompt: PromptView, start: int, end: int) -> PromptView {
    if start <= end && prompt.entry_index >= end {
        PromptView { entry_index: prompt.entry_index - (end - start), ..prompt }
    } else {
        prompt
    }
}

/// `prompts` once the entries from `start` up to but without `end` are gone:
/// those inside the range leave, and those behind it move up.
pub open spec fn prompts_without(prompts: Seq<PromptView>, start: int, end: int) -> Seq<
    PromptView,
>
    decreases prompts.len(),
{
    if prompts.len() == 0 {
        Seq::empty()
    } else {
        let before = prompts_without(prompts.drop_last(), start, end);
        let last = prompts.last();
        if start <= last.entry_index < end {
            before
        } else {
            before.push(shifted(last, start, end))
        }
    }
}

/// The text of `content` and the row for it.
pub fn full_and_preview_from_content(content: &ContentBlock, preview_max_chars: usize) -> (r: (
    String,
    String,
))
    ensures
        r.0@ == content_text(*content),
        r.0@ == match *content {
            ContentBlock::Empty => Seq::empty(),
            ContentBlock::Markdown { source } => source@,
            ContentBlock::ResourceLink { uri } => "[file: "@ + uri@ + "]"@,
            ContentBlock::Image => "[image]"@,
        },
        r.1@ == preview_of(content_text(*content), preview_max_chars as nat),
        r.1@ == ellipsized(trimmed(first_line(r.0@)), preview_max_chars as nat),
        r.1@.len() <= preview_max_chars + 1,
        !r.1@.contains('\n'),
{
    let full_text = match content {
        ContentBlock::Empty => String::new(),
        ContentBlock::Markdown { source } => source.clone(),
        ContentBlock::ResourceLink { uri } => {
            let mut text = "[file: ".to_owned();
            text.append(uri.as_str());
            text.append("]");
            text
        },
        ContentBlock::Image => "[image]".to_owned(),
    };
    let single_line = first_line_trimmed(full_text.as_str());
    let preview = ellipsize(single_line.as_str(), preview_max_chars);
    proof {
        lemma_preview_is_one_line(full_text@, preview_max_chars as nat);
    }
    (full_text, preview)
}

proof fn lemma_trimmed_contains(s: Seq<char>, c: char)
    requires
        trimmed(s).contains(c),
    ensures
        s.contains(c),
{
    lemma_trimmed_end_contains(trimmed_start(s), c);
    lemma_trimmed_start_contains(s, c);
}

proof fn lemma_trimmed_start_contains(s: Seq<char>, c: char)
    requires
        trimmed_start(s).contains(c),
    ensures
        s.contains(c),
    decreases s.len(),
{
    if s.len() > 0 && white_space(s.first()) {
        lemma_trimmed_start_contains(s.drop_first(), c);
        let i = choose|i: int| 0 <= i < s.drop_first().len() && s.drop_first()[i] == c;
        assert(s[i + 1] == c);
    }
}

proof fn lemma_trimmed_end_contains(s: Seq<char>, c: char)
    requires
        trimmed_end(s).contains(c),
    ensures
        s.contains(c),
    decreases s.len(),
{
    if s.len() > 0 && white_space(s.last()) {
        lemma_trimmed_end_contains(s.drop_last(), c);
        let i = choose|i: int| 0 <= i < s.drop_last().len() && s.drop_last()[i] == c;
        assert(s[i] == c);
    }
}

proof fn lemma_preview_is_one_line(text: Seq<char>, max: nat)
    ensures
        !preview_of(text, max).contains('\n'),
{
    let line = first_line(text);
    assert(!line.contains('\n')) by {
        if text.contains('\n') {
            text.index_of_first_ensures('\n');
        }
    }
    let short = trimmed(line);
    if short.contains('\n') {
        lemma_trimmed_contains(line, '\n');
    }
    if preview_of(text, max).contains('\n') {
        let i = choose|i: int|
            0 <= i < preview_of(text, max).len() && preview_of(text, max)[i] == '\n';
        if i < short.len() {
            assert(short[i] == '\n' || i == max);
        }
    }
}

impl PromptHistory {
    /// No prompts.
    pub fn new() -> (r: PromptHistory)
        ensures
            r@ == Seq::<PromptView>::empty(),
    {
        let r = PromptHistory { entries: Vec::new() };
        assert(r@ =~= Seq::empty());
        r
    }

    /// The captured prompts.
    pub fn entries(&self) -> (r: &[PromptHistoryEntry])
        ensures
            prompt_views(r@) == self@,
    {
        self.entries.as_slice()
    }

    /// Drops every prompt, for another thread to become active.
    pub fn reset(&mut self)
        ensures
            final(self)@ == Seq::<PromptView>::empty(),
    {
        self.entries.clear();
        assert(self@ =~= Seq::empty());
    }

    /// Starts anew with the prompts of an existing thread.
    pub fn bootstrap_from_entries(
        &mut self,
        entries: &[AgentThreadEntry],
        preview_max_chars: usize,
    )
        ensures
            final(self)@ == prompts_of(entries@, preview_max_chars as nat),
    {
        self.entries.clear();
        let mut idx: usize = 0;
        assert(self@ =~= Seq::empty());
        while idx < entries.len()
            invariant
                idx <= entries.len(),
                self@ == prompts_of(entries@.take(idx as int), preview_max_chars as nat),
            decreases entries.len() - idx,
        {
            let ghost before = self@;
            proof {
                let next = entries@.take(idx + 1);
                assert(next.drop_last() =~= entries@.take(idx as int));
                assert(next.last() == entries@[idx as int]);
            }
            if let AgentThreadEntry::UserMessage(message) = &entries[idx] {
                self.record(message, idx, preview_max_chars);
            }
            idx = idx + 1;
        }
        assert(entries@.take(idx as int) =~= entries@);
    }

    /// Appends the prompt of the message at `index`.
    fn record(&mut self, message: &UserMessage, index: usize, preview_max_chars: usize)
        ensures
            final(self)@ == old(self)@.push(
                prompt_of(*message, index as int, preview_max_chars as nat),
            ),
    {
        let (full_text, preview) = full_and_preview_from_content(
            &message.content,
            preview_max_chars,
        );
        let id = message.id.clone();
        self.entries.push(PromptHistoryEntry { id, entry_index: index, preview, full_text });
        assert(self@ =~= old(self)@.push(
            prompt_of(*message, index as int, preview_max_chars as nat),
        ));
    }

    /// Appends the prompt of the last entry of `entries`, the one that was just
    /// added, if it is a message of the user.
    pub fn capture_if_user_message(
        &mut self,
        entries: &[AgentThreadEntry],
        preview_max_chars: usize,
    )
        ensures
            final(self)@ == if entries@.len() > 0 && entries@.last() is UserMessage {
                old(self)@.push(
                    prompt_of(
                        entries@.last()->UserMessage_0,
                        entries@.len() - 1,
                        preview_max_chars as nat,
                    ),
                )
            } else {
                old(self)@
            },
            entries@.len() > 0 && old(self)@ == prompts_of(
                entries@.drop_last(),
                preview_max_chars as nat,
            ) ==> final(self)@ == prompts_of(entries@, preview_max_chars as nat),
    {
        if entries.len() == 0 {
            return ;
        }
        let idx = entries.len() - 1;
        if let AgentThreadEntry::UserMessage(message) = &entries[idx] {
            self.record(message, idx, preview_max_chars);
        }
    }

    /// Follows the removal of a range of entries from the thread: the prompts
    /// in the range leave, and those behind it move up.
    pub fn handle_removal(&mut self, removed: &Range<usize>)
        ensures
            final(self)@ == prompts_without(
                old(self)@,
                removed.start as int,
                removed.end as int,
            ),
    {
        let len: usize = if removed.start < removed.end {
            removed.end - removed.start
        } else {
            0
        };
        let ghost all = self@;
        let ghost start = removed.start as int;
        let ghost end = removed.end as int;
        let ghost mut seen: int = 0;
        let mut i: usize = 0;
        proof {
            assert(all.skip(0) =~= all);
            assert(all.take(0) =~= Seq::empty());
            assert(self@ =~= prompts_without(all.take(0), start, end) + all.skip(0));
        }
        while i < self.entries.len()
            invariant
                0 <= seen <= all.len(),
                i <= self.entries.len(),
                start == removed.start,
                end == removed.end,
                len == (if start < end { end - start } else { 0 }),
                prompts_without(all.take(seen), start, end).len() == i,
                self@ == prompts_without(all.take(seen), start, end) + all.skip(seen),
            decreases self.entries.len() - i,
        {
            let index = self.entries[i].entry_index;
            let ghost done = prompts_without(all.take(seen), start, end);
            proof {
                assert(self@[i as int] == self.entries@[i as int]@);
                assert(self@[i as int] == all[seen]);
                assert(all.take(seen + 1).drop_last() =~= all.take(seen));
                assert(all.skip(seen + 1) =~= all.skip(seen).drop_first());
            }
            let ghost before = self@;
            if removed.start <= index && index < removed.end {
                let _ = self.entries.remove(i);
                proof {
                    assert(self@ =~= before.remove(i as int));
                    assert(self@ =~= done + all.skip(seen + 1));
                }
            } else {
                if index >= removed.end {
                    let entry = &mut self.entries[i];
                    entry.entry_index = index - len;
                }
                proof {
                    assert(self@ =~= before.update(i as int, shifted(all[seen], start, end)));
                    assert(self@ =~= done.push(shifted(all[seen], start, end)) + all.skip(seen + 1));
                }
                i = i + 1;
            }
            proof {
                seen = seen + 1;
            }
        }
        proof {
            assert(seen == all.len());
            assert(all.take(seen) =~= all);
            assert(self@ =~= prompts_without(all, start, end));
        }
    }
}

impl Default for PromptHistory {
    fn default() -> (r: PromptHistory)
        ensures
            r@ == Seq::<PromptView>::empty(),
    {
        PromptHistory::new()
    }
}

/// The positions of `prompts` rise.
pub open spec fn positions_rise(prompts: Seq<PromptView>) -> bool {
    forall|i: int, j: int|
        0 <= i < j < prompts.len() ==> (#[trigger] prompts[i]).entry_index < (
        #[trigger] prompts[j]).entry_index
}

/// Every prompt of a thread points at the user message it was captured from,
/// and the positions rise.
pub proof fn prompts_point_at_messages(thread: Seq<AgentThreadEntry>, max: nat)
    ensures
        forall|i: int|
            0 <= i < prompts_of(thread, max).len() ==> {
                let p = #[trigger] prompts_of(thread, max)[i];
                &&& 0 <= p.entry_index < thread.len()
                &&& thread[p.entry_index] is UserMessage
                &&& p == prompt_of(thread[p.entry_index]->UserMessage_0, p.entry_index, max)
            },
        positions_rise(prompts_of(thread, max)),
    decreases thread.len(),
{
    if thread.len() > 0 {
        prompts_point_at_messages(thread.drop_last(), max);
        let before = prompts_of(thread.drop_last(), max);
        let all = prompts_of(thread, max);
        assert forall|i: int| 0 <= i < all.len() implies {
            let p = #[trigger] all[i];
            &&& 0 <= p.entry_index < thread.len()
            &&& thread[p.entry_index] is UserMessage
            &&& p == prompt_of(thread[p.entry_index]->UserMessage_0, p.entry_index, max)
        } by {
            if i < before.len() {
                assert(all[i] == before[i]);
                assert(thread.drop_last()[before[i].entry_index] == thread[before[i].entry_index]);
            }
        }
        assert forall|i: int, j: int| 0 <= i < j < all.len() implies (#[trigger] all[i]).entry_index
            < (#[trigger] all[j]).entry_index by {
            assert(all[i] == before[i]);
            if j < before.len() {
                assert(all[j] == before[j]);
            }
        }
    }
}

/// Every user message of a thread has a prompt.
pub proof fn messages_have_prompts(thread: Seq<AgentThreadEntry>, max: nat, index: int)
    requires
        0 <= index < thread.len(),
        thread[index] is UserMessage,
    ensures
        prompts_of(thread, max).contains(
            prompt_of(thread[index]->UserMessage_0, index, max),
        ),
    decreases thread.len(),
{
    let all = prompts_of(thread, max);
    let wanted = prompt_of(thread[index]->UserMessage_0, index, max);
    if index == thread.len() - 1 {
        assert(all[all.len() - 1] == wanted);
    } else {
        messages_have_prompts(thread.drop_last(), max, index);
        let before = prompts_of(thread.drop_last(), max);
        let i = choose|i: int| 0 <= i < before.len() && before[i] == wanted;
        assert(all[i] == wanted);
    }
}

/// The history of a thread stays that of the thread when a range of entries is
/// removed from both.
pub proof fn removal_keeps_history_in_sync(
    thread: Seq<AgentThreadEntry>,
    start: int,
    end: int,
    max: nat,
)
    requires
        0 <= start <= end <= thread.len(),
    ensures
        prompts_without(prompts_of(thread, max), start, end) == prompts_of(
            without_range(thread, start, end),
            max,
        ),
    decreases thread.len(),
{
    let rest = thread.drop_last();
    if thread.len() == 0 {
        assert(without_range(thread, start, end) =~= thread);
    } else if end == thread.len() {
        lemma_removed_tail(thread, start, end, max);
        assert(without_range(thread, start, end) =~= thread.take(start));
    } else {
        removal_keeps_history_in_sync(rest, start, end, max);
        let left = without_range(thread, start, end);
        assert(left.drop_last() =~= without_range(rest, start, end));
        assert(left.last() == thread.last());
        let before = prompts_of(rest, max);
        let all = prompts_of(thread, max);
        if let AgentThreadEntry::UserMessage(message) = thread.last() {
            assert(all.drop_last() =~= before);
            assert(all.last() == prompt_of(message, thread.len() - 1, max));
            assert(shifted(all.last(), start, end) == prompt_of(message, left.len() - 1, max));
        }
    }
}

/// Removing a range of entries keeps the order of the prompts that stay, and no
/// two of them come to stand at one position.
pub proof fn removal_keeps_positions_rising(prompts: Seq<PromptView>, start: int, end: int)
    requires
        positions_rise(prompts),
    ensures
        positions_rise(prompts_without(prompts, start, end)),
    decreases prompts.len(),
{
    if prompts.len() > 0 {
        let rest = prompts.drop_last();
        let last = prompts.last();
        assert forall|i: int, j: int| 0 <= i < j < rest.len() implies (
        #[trigger] rest[i]).entry_index < (#[trigger] rest[j]).entry_index by {
            assert(rest[i] == prompts[i] && rest[j] == prompts[j]);
        }
        removal_keeps_positions_rising(rest, start, end);
        let before = prompts_without(rest, start, end);
        let all = prompts_without(prompts, start, end);
        assert forall|i: int, j: int| 0 <= i < j < all.len() implies (#[trigger] all[i]).entry_index
            < (#[trigger] all[j]).entry_index by {
            assert(all[i] == before[i]);
            if j < before.len() {
                assert(all[j] == before[j]);
            } else {
                let k = lemma_kept_prompt(rest, start, end, i);
                assert(rest[k] == prompts[k]);
                assert(prompts[k].entry_index < prompts[prompts.len() - 1].entry_index);
            }
        }
    }
}

/// The prompt at `i` among those that stay was one outside the range before.
proof fn lemma_kept_prompt(prompts: Seq<PromptView>, start: int, end: int, i: int) -> (k: int)
    requires
        0 <= i < prompts_without(prompts, start, end).len(),
    ensures
        0 <= k < prompts.len(),
        !(start <= prompts[k].entry_index < end),
        prompts_without(prompts, start, end)[i] == shifted(prompts[k], start, end),
    decreases prompts.len(),
{
    let rest = prompts.drop_last();
    let before = prompts_without(rest, start, end);
    if i < before.len() {
        lemma_kept_prompt(rest, start, end, i)
    } else {
        prompts.len() - 1
    }
}

/// Removing everything from `start` on leaves the prompts before `start`.
proof fn lemma_removed_tail(
    thread: Seq<AgentThreadEntry>,
    start: int,
    end: int,
    max: nat,
)
    requires
        0 <= start <= end,
        thread.len() <= end,
    ensures
        prompts_without(prompts_of(thread, max), start, end) == prompts_of(
            if start <= thread.len() {
                thread.take(start)
            } else {
                thread
            },
            max,
        ),
    decreases thread.len(),
{
    if thread.len() == 0 {
        assert(thread.take(0) =~= thread);
    } else {
        let rest = thread.drop_last();
        lemma_removed_tail(rest, start, end, max);
        let before = prompts_of(rest, max);
        let all = prompts_of(thread, max);
        if let AgentThreadEntry::UserMessage(message) = thread.last() {
            assert(all.drop_last() =~= before);
        }
        if start < thread.len() {
            assert(rest.take(start) =~= thread.take(start));
        } else if start == thread.len() {
            assert(thread.take(start) =~= thread);
        }
    }
}

/// The prompts of a thread with one more entry are those before, followed by
/// the prompt of that entry if it is a message of the user.
pub proof fn added_entry_extends_history(
    thread: Seq<AgentThreadEntry>,
    entry: AgentThreadEntry,
    max: nat,
)
    ensures
        prompts_of(thread.push(entry), max) == match entry {
            AgentThreadEntry::UserMessage(message) => prompts_of(thread, max).push(
                prompt_of(message, thread.len() as int, max),
            ),
            AgentThreadEntry::Other => prompts_of(thread, max),
        },
{
    assert(thread.push(entry).drop_last() =~= thread);
}

/// An image has the same placeholder as row and as full text, where the row
/// has room for it.
pub proof fn image_placeholder_matches(max: nat)
    requires
        max >= 7,
    ensures
        preview_of(content_text(ContentBlock::Image), max) == content_text(ContentBlock::Image),
{
    reveal_strlit("[image]");
    let text = "[image]"@;
    assert(text[0] == '[' && text[6] == ']');
    lemma_bare_line(text);
}

/// A link has the same placeholder as row and as full text, where its address
/// is one line and the row has room for it.
pub proof fn link_placeholder_matches(uri: String, max: nat)
    requires
        !uri@.contains('\n'),
        uri@.len() + 8 <= max,
    ensures
        preview_of(content_text(ContentBlock::ResourceLink { uri }), max) == content_text(
            ContentBlock::ResourceLink { uri },
        ),
{
    reveal_strlit("[file: ");
    reveal_strlit("]");
    let text = "[file: "@ + uri@ + "]"@;
    assert(text[0] == '[' && text.last() == ']');
    assert(!text.contains('\n')) by {
        if text.contains('\n') {
            let i = choose|i: int| 0 <= i < text.len() && text[i] == '\n';
            if 7 <= i < 7 + uri@.len() {
                assert(uri@[i - 7] == '\n');
            }
        }
    }
    lemma_bare_line(text);
}

/// A single line between brackets is its own trimmed first line.
proof fn lemma_bare_line(text: Seq<char>)
    requires
        text.len() > 0,
        text[0] == '[',
        text.last() == ']',
        !text.contains('\n'),
    ensures
        trimmed(first_line(text)) == text,
{
}

/// Where a button scrolls the thread to.
#[derive(Clone, Copy, Debug, PartialEq, Eq, Structural)]
pub enum ScrollTarget {
    Top,
    Bottom,
}

/// A button that scrolls the thread.
#[derive(Debug, PartialEq, Eq)]
pub struct ScrollButton {
    pub id: String,
    pub tooltip: String,
    pub target: ScrollTarget,
}

/// A button, its texts as sequences.
pub struct ScrollButtonView {
    pub id: Seq<char>,
    pub tooltip: Seq<char>,
    pub target: ScrollTarget,
}

impl View for ScrollButton {
    type V = ScrollButtonView;

    open spec fn view(&self) -> ScrollButtonView {
        ScrollButtonView { id: self.id@, tooltip: self.tooltip@, target: self.target }
    }
}

/// The button that scrolls the thread to `target`.
pub open spec fn scroll_button_for(target: ScrollTarget) -> ScrollButtonView {
    match target {
        ScrollTarget::Top => ScrollButtonView {
            id: "prompt-history-scroll-top"@,
            tooltip: "Scroll chat to top"@,
            target,
        },
        ScrollTarget::Bottom => ScrollButtonView {
            id: "prompt-history-scroll-bottom"@,
            tooltip: "Scroll chat to bottom"@,
            target,
        },
    }
}

fn scroll_button(target: ScrollTarget) -> (r: ScrollButton)
    ensures
        r@ == scroll_button_for(target),
{
    match target {
        ScrollTarget::Top => ScrollButton {
            id: "prompt-history-scroll-top".to_owned(),
            tooltip: "Scroll chat to top".to_owned(),
            target,
        },
        ScrollTarget::Bottom => ScrollButton {
            id: "prompt-history-scroll-bottom".to_owned(),
            tooltip: "Scroll chat to bottom".to_owned(),
            target,
        },
    }
}

/// An item of the menu that lists the prompts.
#[derive(Debug, PartialEq, Eq)]
pub enum PromptMenuItem {
    /// A plain text.
    Label { text: String },
    /// A title alone.
    Header { title: String },
    /// A title with two buttons behind it.
    ScrollHeader { title: String, first: ScrollButton, second: ScrollButton },
    Separator,
    /// A prompt. A click scrolls the thread to the entry `scroll_to`.
    Row { id: String, preview: String, tooltip: String, scroll_to: Option<usize> },
}

/// An item of the menu, its texts as sequences.
pub enum PromptMenuItemView {
    Label { text: Seq<char> },
    Header { title: Seq<char> },
    ScrollHeader { title: Seq<char>, first: ScrollButtonView, second: ScrollButtonView },
    Separator,
    Row { id: Seq<char>, preview: Seq<char>, tooltip: Seq<char>, scroll_to: Option<int> },
}

impl View for PromptMenuItem {
    type V = PromptMenuItemView;

    open spec fn view(&self) -> PromptMenuItemView {
        match *self {
            PromptMenuItem::Label { text } => PromptMenuItemView::Label { text: text@ },
            PromptMenuItem::Header { title } => PromptMenuItemView::Header { title: title@ },
            PromptMenuItem::ScrollHeader { title, first, second } => {
                PromptMenuItemView::ScrollHeader {
                    title: title@,
                    first: first@,
                    second: second@,
                }
            },
            PromptMenuItem::Separator => PromptMenuItemView::Separator,
            PromptMenuItem::Row { id, preview, tooltip, scroll_to } => PromptMenuItemView::Row {
                id: id@,
                preview: preview@,
                tooltip: tooltip@,
                scroll_to: match scroll_to {
                    Some(index) => Some(index as int),
                    None => None,
                },
            },
        }
    }
}

/// The views of a sequence of menu items.
pub open spec fn menu_views(items: Seq<PromptMenuItem>) -> Seq<PromptMenuItemView> {
    items.map_values(|item: PromptMenuItem| item@)
}

/// The row of a prompt. Without a list to scroll a click does nothing.
pub open spec fn row_of(prompt: PromptView, has_list: bool) -> PromptMenuItemView {
    PromptMenuItemView::Row {
        id: "prompt-history-row-"@ + decimal(prompt.entry_index as nat),
        preview: prompt.preview,
        tooltip: prompt.full_text,
        scroll_to: if has_list {
            Some(prompt.entry_index)
        } else {
            None
        },
    }
}

/// The rows of different positions have different ids.
pub proof fn rows_have_distinct_ids(a: PromptView, b: PromptView, has_list: bool)
    requires
        0 <= a.entry_index,
        0 <= b.entry_index,
        a.entry_index != b.entry_index,
    ensures
        row_of(a, has_list)->id != row_of(b, has_list)->id,
{
    let prefix = "prompt-history-row-"@;
    let x = decimal(a.entry_index as nat);
    let y = decimal(b.entry_index as nat);
    if prefix + x == prefix + y {
        assert(x =~= (prefix + x).skip(prefix.len() as int));
        assert(y =~= (prefix + y).skip(prefix.len() as int));
        decimal_is_injective(a.entry_index as nat, b.entry_index as nat);
    }
}

/// The menu that lists `prompts`, the oldest first.
pub open spec fn menu_of(prompts: Seq<PromptView>, has_list: bool) -> Seq<PromptMenuItemView> {
    if prompts.len() == 0 {
        seq![PromptMenuItemView::Label { text: "No prompts in this session yet"@ }]
    } else {
        let title = "Prompt History ("@ + decimal(prompts.len()) + ")"@;
        let header = if has_list {
            PromptMenuItemView::ScrollHeader {
                title,
                first: scroll_button_for(ScrollTarget::Top),
                second: scroll_button_for(ScrollTarget::Bottom),
            }
        } else {
            PromptMenuItemView::Header { title }
        };
        seq![header, PromptMenuItemView::Separator] + prompts.map_values(
            |prompt: PromptView| row_of(prompt, has_list),
        )
    }
}

/// The menu that lists the prompts `entries`. `has_list` tells whether a
/// thread is shown that can be scrolled.
pub fn build_prompt_history_menu(entries: &[PromptHistoryEntry], has_list: bool) -> (r: Vec<
    PromptMenuItem,
>)
    ensures
        menu_views(r@) == menu_of(prompt_views(entries@), has_list),
        entries@.len() == 0 ==> r.len() == 1 && r@[0] is Label && r@[0]->text@
            == "No prompts in this session yet"@,
        entries@.len() > 0 ==> {
            let title = "Prompt History ("@ + decimal(entries@.len()) + ")"@;
            &&& r.len() == entries@.len() + 2
            &&& match r@[0] {
                PromptMenuItem::ScrollHeader { title: text, first, second } => {
                    &&& has_list
                    &&& text@ == title
                    &&& first.target == ScrollTarget::Top
                    &&& first.id@ == "prompt-history-scroll-top"@
                    &&& first.tooltip@ == "Scroll chat to top"@
                    &&& second.target == ScrollTarget::Bottom
                    &&& second.id@ == "prompt-history-scroll-bottom"@
                    &&& second.tooltip@ == "Scroll chat to bottom"@
                },
                PromptMenuItem::Header { title: text } => !has_list && text@ == title,
                _ => false,
            }
            &&& r@[1] is Separator
        },
        forall|i: int|
            0 <= i < entries@.len() ==> {
                let entry = #[trigger] entries@[i];
                match r@[i + 2] {
                    PromptMenuItem::Row { id, preview, tooltip, scroll_to } => {
                        &&& id@ == "prompt-history-row-"@ + decimal(entry.entry_index as nat)
                        &&& preview@ == entry.preview@
                        &&& tooltip@ == entry.full_text@
                        &&& has_list ==> scroll_to == Some(entry.entry_index)
                        &&& !has_list ==> scroll_to is None
                    },
                    _ => false,
                }
            },
{
    let mut menu: Vec<PromptMenuItem> = Vec::new();
    let ghost prompts = prompt_views(entries@);
    if entries.len() == 0 {
        menu.push(PromptMenuItem::Label { text: "No prompts in this session yet".to_owned() });
        assert(menu_views(menu@) =~= menu_of(prompts, has_list));
        assert(menu_views(menu@)[0] == menu@[0]@);
        return menu;
    }
    let mut title = "Prompt History (".to_owned();
    let count = decimal_text(entries.len());
    title.append(count.as_str());
    title.append(")");
    if has_list {
        menu.push(
            PromptMenuItem::ScrollHeader {
                title,
                first: scroll_button(ScrollTarget::Top),
                second: scroll_button(ScrollTarget::Bottom),
            },
        );
    } else {
        menu.push(PromptMenuItem::Header { title });
    }
    menu.push(PromptMenuItem::Separator);
    let ghost whole = menu_of(prompts, has_list);
    let mut i: usize = 0;
    assert(menu_views(menu@) =~= whole.take(2));
    while i < entries.len()
        invariant
            i <= entries.len(),
            entries.len() > 0,
            prompts == prompt_views(entries@),
            whole == menu_of(prompts, has_list),
            menu_views(menu@) == whole.take(2 + i),
        decreases entries.len() - i,
    {
        let entry = &entries[i];
        let ghost before = menu@;
        let mut id = "prompt-history-row-".to_owned();
        let index = decimal_text(entry.entry_index);
        id.append(index.as_str());
        let scroll_to = if has_list {
            Some(entry.entry_index)
        } else {
            None
        };
        menu.push(
            PromptMenuItem::Row {
                id,
                preview: entry.preview.clone(),
                tooltip: entry.full_text.clone(),
                scroll_to,
            },
        );
        proof {
            assert(prompts[i as int] == entry@);
            assert(whole[2 + i] == row_of(prompts[i as int], has_list));
            assert(menu@.last()@ == row_of(entry@, has_list));
            assert(menu_views(menu@) =~= menu_views(before).push(menu@.last()@));
            assert(menu_views(menu@) =~= whole.take(3 + i));
        }
        i = i + 1;
    }
    proof {
        assert(whole.take(2 + i) =~= whole);
        assert(menu@.len() == menu_views(menu@).len());
        assert(menu@[0]@ == menu_views(menu@)[0]);
        assert(menu@[1]@ == menu_views(menu@)[1]);
        assert forall|k: int| 0 <= k < entries@.len() implies {
            let entry = #[trigger] entries@[k];
            match menu@[k + 2] {
                PromptMenuItem::Row { id, preview, tooltip, scroll_to } => {
                    &&& id@ == "prompt-history-row-"@ + decimal(entry.entry_index as nat)
                    &&& preview@ == entry.preview@
                    &&& tooltip@ == entry.full_text@
                    &&& has_list ==> scroll_to == Some(entry.entry_index)
                    &&& !has_list ==> scroll_to is None
                },
                _ => false,
            }
        } by {
            assert(menu@[k + 2]@ == menu_views(menu@)[k + 2]);
            assert(whole[k + 2] == row_of(prompts[k], has_list));
            assert(prompts[k] == entries@[k]@);
        }
    }
    menu
}

/// The prompt of a message keeps the id of the message, its position and its
/// whole text: the source, or a placeholder that spells out the address of a
/// link or stands for an image. Its row is the first line of that text, without
/// white space at the ends, cut to `max` characters.
pub proof fn prompt_keeps_its_message(message: UserMessage, index: int, max: nat)
    ensures
        ({
            let prompt = prompt_of(message, index, max);
            &&& prompt.id is Some <==> message.id is Some
            &&& message.id is Some ==> prompt.id->0 == message.id->0@
            &&& prompt.entry_index == index
            &&& prompt.full_text == match message.content {
                ContentBlock::Empty => Seq::empty(),
                ContentBlock::Markdown { source } => source@,
                ContentBlock::ResourceLink { uri } => "[file: "@ + uri@ + "]"@,
                ContentBlock::Image => "[image]"@,
            }
            &&& prompt.preview == ellipsized(trimmed(first_line(prompt.full_text)), max)
        }),
{
}

/// Every prompt of a thread keeps the whole message that it points at.
pub proof fn prompts_keep_their_messages(thread: Seq<AgentThreadEntry>, max: nat)
    ensures
        forall|i: int|
            0 <= i < prompts_of(thread, max).len() ==> {
                let prompt = #[trigger] prompts_of(thread, max)[i];
                let message = thread[prompt.entry_index]->UserMessage_0;
                &&& 0 <= prompt.entry_index < thread.len()
                &&& thread[prompt.entry_index] is UserMessage
                &&& prompt.id is Some <==> message.id is Some
                &&& message.id is Some ==> prompt.id->0 == message.id->0@
                &&& prompt.full_text == match message.content {
                    ContentBlock::Empty => Seq::empty(),
                    ContentBlock::Markdown { source } => source@,
                    ContentBlock::ResourceLink { uri } => "[file: "@ + uri@ + "]"@,
                    ContentBlock::Image => "[image]"@,
                }
                &&& prompt.preview == ellipsized(trimmed(first_line(prompt.full_text)), max)
            },
{
    prompts_point_at_messages(thread, max);
}

/// Every message of the user has one prompt, the one at `r` among all.
pub proof fn message_has_one_prompt(thread: Seq<AgentThreadEntry>, max: nat, index: int) -> (r: int)
    requires
        0 <= index < thread.len(),
        thread[index] is UserMessage,
    ensures
        0 <= r < prompts_of(thread, max).len(),
        prompts_of(thread, max)[r].entry_index == index,
        forall|i: int|
            0 <= i < prompts_of(thread, max).len() && (
            #[trigger] prompts_of(thread, max)[i]).entry_index == index ==> i == r,
{
    messages_have_prompts(thread, max, index);
    prompts_point_at_messages(thread, max);
    let all = prompts_of(thread, max);
    let wanted = prompt_of(thread[index]->UserMessage_0, index, max);
    let r = choose|r: int| 0 <= r < all.len() && all[r] == wanted;
    assert(all[r].entry_index == index);
    r
}

/// A removal drops the prompts inside the range and moves those behind it up by
/// the length of the range; the others, and all texts and ids, stay. A range
/// that is turned around removes nothing.
pub proof fn removal_drops_range_and_closes_gap(prompts: Seq<PromptView>, start: int, end: int)
    ensures
        prompts_without(prompts, start, end) == prompts.filter(
            |p: PromptView| p.entry_index < start || p.entry_index >= end,
        ).map_values(
            |p: PromptView|
                PromptView {
                    id: p.id,
                    entry_index: if p.entry_index >= end && start <= end {
                        p.entry_index - (end - start)
                    } else {
                        p.entry_index
                    },
                    preview: p.preview,
                    full_text: p.full_text,
                },
        ),
        start >= end ==> prompts_without(prompts, start, end) == prompts,
    decreases prompts.len(),
{
    let stays = |p: PromptView| p.entry_index < start || p.entry_index >= end;
    let moved = |p: PromptView|
        PromptView {
            id: p.id,
            entry_index: if p.entry_index >= end && start <= end {
                p.entry_index - (end - start)
            } else {
                p.entry_index
            },
            preview: p.preview,
            full_text: p.full_text,
        };
    reveal(Seq::filter);
    if prompts.len() > 0 {
        let rest = prompts.drop_last();
        let last = prompts.last();
        removal_drops_range_and_closes_gap(rest, start, end);
        assert(shifted(last, start, end) == moved(last));
        if stays(last) {
            assert(prompts.filter(stays) == rest.filter(stays).push(last));
            assert(rest.filter(stays).push(last).map_values(moved) =~= rest.filter(
                stays,
            ).map_values(moved).push(moved(last)));
        }
        if start >= end {
            assert(rest.push(last) =~= prompts);
        }
    } else {
        assert(prompts.filter(stays).map_values(moved) =~= Seq::empty());
        assert(prompts =~= Seq::empty());
    }
}

/// The menu of a history shows a title with the number of prompts, a separator,
/// and then a row for every prompt in the order of the history, with its row
/// text, its full text as tooltip, and its position to scroll to where there is
/// a list to scroll.
pub proof fn menu_lists_prompts_in_order(prompts: Seq<PromptView>, has_list: bool)
    requires
        prompts.len() > 0,
    ensures
        ({
            let menu = menu_of(prompts, has_list);
            let title = "Prompt History ("@ + decimal(prompts.len()) + ")"@;
            &&& menu.len() == prompts.len() + 2
            &&& has_list ==> menu[0] is ScrollHeader && menu[0]->ScrollHeader_title == title
            &&& !has_list ==> menu[0] == (PromptMenuItemView::Header { title })
            &&& menu[1] is Separator
            &&& forall|i: int|
                0 <= i < prompts.len() ==> menu[i + 2] == (PromptMenuItemView::Row {
                    id: "prompt-history-row-"@ + decimal(
                        (#[trigger] prompts[i]).entry_index as nat,
                    ),
                    preview: prompts[i].preview,
                    tooltip: prompts[i].full_text,
                    scroll_to: if has_list {
                        Some(prompts[i].entry_index)
                    } else {
                        None
                    },
                })
        }),
{
}

/// Where the positions of the prompts rise, a row further down scrolls further
/// down.
pub proof fn rows_follow_the_thread(prompts: Seq<PromptView>, i: int, j: int)
    requires
        positions_rise(prompts),
        0 <= i < j < prompts.len(),
    ensures
        ({
            let menu = menu_of(prompts, true);
            &&& menu[i + 2] is Row && menu[i + 2]->scroll_to is Some
            &&& menu[j + 2] is Row && menu[j + 2]->scroll_to is Some
            &&& menu[i + 2]->scroll_to->0 < menu[j + 2]->scroll_to->0
        }),
{
    menu_lists_prompts_in_order(prompts, true);
    assert(prompts[i].entry_index < prompts[j].entry_index);
}

/// A history without prompts has a menu with one text and nothing to click.
pub proof fn menu_of_nothing_says_so(has_list: bool)
    ensures
        menu_of(Seq::empty(), has_list) == seq![
            PromptMenuItemView::Label { text: "No prompts in this session yet"@ },
        ],
{
}

/// The header of a list that can be scrolled has a button to its top before one
/// to its bottom.
pub proof fn header_scrolls_to_both_ends(prompts: Seq<PromptView>)
    requires
        prompts.len() > 0,
    ensures
        menu_of(prompts, true)[0]->first == (ScrollButtonView {
            id: "prompt-history-scroll-top"@,
            tooltip: "Scroll chat to top"@,
            target: ScrollTarget::Top,
        }),
        menu_of(prompts, true)[0]->second == (ScrollButtonView {
            id: "prompt-history-scroll-bottom"@,
            tooltip: "Scroll chat to bottom"@,
            target: ScrollTarget::Bottom,
        }),
{
}

/// The view of a captured prompt tells all that it holds.
pub proof fn prompt_view_is_complete(entry: PromptHistoryEntry)
    ensures
        entry@.id is Some <==> entry.id is Some,
        entry.id is Some ==> entry@.id->0 == entry.id->0@,
        entry@.entry_index == entry.entry_index,
        entry@.preview == entry.preview@,
        entry@.full_text == entry.full_text@,
{
}

} // verus!
