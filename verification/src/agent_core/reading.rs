//! What is read out of a model's answer, and what a request carries.
use crate::agent_core::model::{
    self, completed, data_of, frames, in_places, left_over, line_data, lines, message_body, no_call,
    received, reply_told, request_body, sent_request, told, tool_body, unfinished, with_choices,
    with_delta, with_deltas, with_piece, ChatStreamView, OpenAiMessageView,
    OpenAiResponseMessageView, OpenAiStreamDeltaView, OpenAiStreamToolCallView, OpenAiToolCallView,
    PartialToolCallView,
};
use crate::error::AgentErrorView;
use crate::json::{self, Json};
use crate::kernel::model::{
    FunctionSpecView, ModelFunctionCallView, ModelRequestView, ModelResponseView,
    ModelStreamEventView,
};
use crate::kernel::projection::ChatMessageView;
use crate::text;
use crate::wording;
use vstd::prelude::*;

verus! {

// ---------------------------------------------------------------------------
// A streamed answer

/// Whether the pieces of a call make a call: its identifier and its name, and its
/// arguments as their text reads.
pub open spec fn makes(pieces: PartialToolCallView, call: ModelFunctionCallView) -> bool {
    &&& pieces.call_id == Some(call.call_id)
    &&& pieces.name == Some(call.name)
    &&& json::json_read(pieces.arguments) == json::Reading::Document(call.arguments)
}

/// Whether the pieces of a call make some call.
pub open spec fn whole(pieces: PartialToolCallView) -> bool {
    pieces.call_id is Some && pieces.name is Some && json::json_read(
        pieces.arguments,
    ) is Document
}

/// Whether the pieces of a call make none, for a reason.
pub open spec fn lacks(pieces: PartialToolCallView, e: AgentErrorView) -> bool {
    match (pieces.call_id, pieces.name) {
        (None, _) => e == AgentErrorView::Model("streamed tool call missing id"@),
        (Some(id), None) => e == AgentErrorView::Model(
            "streamed tool call "@ + id + " missing name"@,
        ),
        (Some(id), Some(name)) => json::json_read(pieces.arguments) matches json::Reading::Refused(
            words,
        ) && e == AgentErrorView::Model(
            "invalid JSON arguments for streamed tool call "@ + id + ": "@ + words,
        ),
    }
}

proof fn lemma_completed_calls(calls: Seq<(usize, PartialToolCallView)>)
    ensures
        match model::completed_calls(calls) {
            Ok(made) => made.len() == calls.len() && forall|i: int|
                0 <= i < calls.len() ==> makes((#[trigger] calls[i]).1, made[i]),
            Err(e) => exists|i: int|
                0 <= i < calls.len() && lacks((#[trigger] calls[i]).1, e) && forall|j: int|
                    0 <= j < i ==> whole((#[trigger] calls[j]).1),
        },
    decreases calls.len(),
{
    if calls.len() > 0 {
        let less = calls.drop_last();
        let last = calls.len() - 1;
        lemma_completed_calls(less);
        assert forall|i: int| 0 <= i < last implies #[trigger] calls[i] == less[i] by {}
        match model::completed_calls(less) {
            Ok(earlier) => {
                assert forall|j: int| 0 <= j < last implies whole((#[trigger] calls[j]).1) by {
                    assert(makes(less[j].1, earlier[j]));
                }
                match model::completed_call(calls.last().1) {
                    Ok(call) => {
                        assert forall|i: int| 0 <= i < calls.len() implies makes(
                            (#[trigger] calls[i]).1,
                            earlier.push(call)[i],
                        ) by {
                            if i < last {
                                assert(makes(less[i].1, earlier[i]));
                            }
                        }
                    },
                    Err(e) => {
                        assert(lacks(calls[last].1, e));
                    },
                }
            },
            Err(e) => {
                let i = choose|i: int|
                    0 <= i < less.len() && lacks((#[trigger] less[i]).1, e) && forall|j: int|
                        0 <= j < i ==> whole((#[trigger] less[j]).1);
                assert(lacks(calls[i].1, e));
                assert forall|j: int| 0 <= j < i implies whole((#[trigger] calls[j]).1) by {
                    assert(calls[j] == less[j]);
                }
            },
        }
    }
}

/// A stream without calls ends in its whole text. One with calls ends in all of
/// them, each made of its own pieces, in the order of their places; or, where the
/// pieces of one make no call, in the error of the first such.
pub proof fn law_stream_ends_in_what_came(stream: ChatStreamView)
    ensures
        match completed(stream) {
            Ok(ModelResponseView::AssistantMessage { text }) => stream.calls.len() == 0 && text
                == stream.text,
            Ok(ModelResponseView::FunctionCalls { calls }) => {
                &&& stream.calls.len() > 0
                &&& calls.len() == stream.calls.len()
                &&& forall|i: int|
                    0 <= i < calls.len() ==> makes(stream.calls[i].1, #[trigger] calls[i])
            },
            Ok(_) => false,
            Err(e) => exists|i: int|
                0 <= i < stream.calls.len() && lacks((#[trigger] stream.calls[i]).1, e)
                    && forall|j: int|
                    0 <= j < i ==> whole((#[trigger] stream.calls[j]).1),
        },
{
    lemma_completed_calls(stream.calls);
    if let Ok(ModelResponseView::FunctionCalls { calls }) = completed(stream) {
        assert forall|i: int| 0 <= i < calls.len() implies makes(
            stream.calls[i].1,
            #[trigger] calls[i],
        ) by {
            assert(makes((stream.calls[i]).1, calls[i]));
        }
    }
}

/// Whether a piece was added to a call, or began one: what it brings of an
/// identifier or a name replaces what was there, and its arguments are appended.
pub open spec fn continued(
    before: Option<PartialToolCallView>,
    piece: OpenAiStreamToolCallView,
    after: PartialToolCallView,
) -> bool {
    let had = before is Some;
    &&& after.call_id == if piece.id is Some || !had {
        piece.id
    } else {
        before->0.call_id
    }
    &&& after.name == if piece.name is Some || !had {
        piece.name
    } else {
        before->0.name
    }
    &&& after.arguments == (if had {
        before->0.arguments
    } else {
        Seq::empty()
    }) + (match piece.arguments {
        Some(more) => more,
        None => Seq::empty(),
    })
}

/// A piece goes to the call of its place, or begins one there; every other call
/// stays as it was, and no other is added.
pub proof fn law_piece_goes_to_its_call(
    calls: Seq<(usize, PartialToolCallView)>,
    piece: OpenAiStreamToolCallView,
)
    requires
        in_places(calls),
    ensures
        ({
            let after = with_delta(calls, piece);
            &&& forall|j: int|
                0 <= j < calls.len() && (#[trigger] calls[j]).0 != piece.index ==> after.contains(
                    calls[j],
                )
            &&& forall|j: int|
                0 <= j < calls.len() && (#[trigger] calls[j]).0 == piece.index ==> exists|k: int|
                    0 <= k < after.len() && (#[trigger] after[k]).0 == piece.index && continued(
                        Some(calls[j].1),
                        piece,
                        after[k].1,
                    ) && after.len() == calls.len()
            &&& (forall|j: int| 0 <= j < calls.len() ==> (#[trigger] calls[j]).0 != piece.index)
                ==> exists|k: int|
                0 <= k < after.len() && (#[trigger] after[k]).0 == piece.index && continued(
                    None,
                    piece,
                    after[k].1,
                ) && after.len() == calls.len() + 1
        }),
    decreases calls.len(),
{
    let after = with_delta(calls, piece);
    assert(continued(None, piece, with_piece(no_call(), piece))) by {
        assert(with_piece(no_call(), piece).arguments =~= Seq::<char>::empty() + (
        match piece.arguments {
            Some(more) => more,
            None => Seq::empty(),
        }));
    }
    if calls.len() == 0 {
        assert(after[0].0 == piece.index);
    } else {
        let last = calls.len() - 1;
        let less = calls.drop_last();
        assert forall|i: int, j: int| 0 <= i < j < less.len() implies (#[trigger] less[i]).0 < (
        #[trigger] less[j]).0 by {
            assert(calls[i].0 < calls[j].0);
        }
        law_piece_goes_to_its_call(less, piece);
        assert forall|j: int| 0 <= j < last implies calls[j].0 < calls[last].0 && #[trigger] calls[j]
            == less[j] by {}
        if calls.last().0 == piece.index {
            let made = with_piece(calls.last().1, piece);
            assert(made.arguments =~= calls.last().1.arguments + (match piece.arguments {
                Some(more) => more,
                None => Seq::empty(),
            }));
            assert(after[last] == (piece.index, made));
            assert forall|j: int| 0 <= j < last implies after.contains(#[trigger] calls[j]) by {
                assert(after[j] == calls[j]);
            }
        } else if calls.last().0 < piece.index {
            assert(after[last + 1].0 == piece.index);
            assert forall|j: int| 0 <= j < calls.len() implies after.contains(
                #[trigger] calls[j],
            ) by {
                assert(after[j] == calls[j]);
            }
        } else {
            let shorter = with_delta(less, piece);
            assert forall|k: int| 0 <= k < shorter.len() implies #[trigger] shorter[k]
                == after[k] by {}
            assert(after[shorter.len() as int] == calls[last]);
            assert forall|j: int|
                0 <= j < calls.len() && (#[trigger] calls[j]).0 != piece.index implies after.contains(
                calls[j],
            ) by {
                if j < last {
                    assert(shorter.contains(less[j]));
                    let k = choose|k: int| 0 <= k < shorter.len() && shorter[k] == less[j];
                    assert(after[k] == calls[j]);
                }
            }
            assert forall|j: int|
                0 <= j < calls.len() && (#[trigger] calls[j]).0 == piece.index implies exists|
                k: int,
            |
                0 <= k < after.len() && (#[trigger] after[k]).0 == piece.index && continued(
                    Some(calls[j].1),
                    piece,
                    after[k].1,
                ) && after.len() == calls.len() by {
                assert(less[j].0 == piece.index);
                let k = choose|k: int|
                    0 <= k < shorter.len() && (#[trigger] shorter[k]).0 == piece.index
                        && continued(Some(less[j].1), piece, shorter[k].1) && shorter.len()
                        == less.len();
                assert(after[k].0 == piece.index);
            }
            if forall|j: int| 0 <= j < calls.len() ==> (#[trigger] calls[j]).0 != piece.index {
                assert forall|j: int| 0 <= j < less.len() implies (#[trigger] less[j]).0
                    != piece.index by {
                    assert(calls[j].0 != piece.index);
                }
                let k = choose|k: int|
                    0 <= k < shorter.len() && (#[trigger] shorter[k]).0 == piece.index
                        && continued(None, piece, shorter[k].1) && shorter.len() == less.len() + 1;
                assert(after[k].0 == piece.index);
            }
        }
    }
}

/// Pieces of an answer are taken in one after another, none twice and none left
/// out: each adds its text at the end and its pieces of calls to the calls, and its
/// text is what is reported of it.
pub proof fn law_pieces_are_taken_in_order(
    stream: ChatStreamView,
    first: Seq<OpenAiStreamDeltaView>,
    second: Seq<OpenAiStreamDeltaView>,
    one: OpenAiStreamDeltaView,
)
    ensures
        with_choices(stream, first + second) == with_choices(with_choices(stream, first), second),
        told(first + second) == told(first) + told(second),
        with_choices(stream, Seq::empty()) == stream,
        with_choices(stream, seq![one]).buffer == stream.buffer,
        with_choices(stream, seq![one]).text == stream.text + (match one.content {
            Some(content) => content,
            None => Seq::empty(),
        }),
        one.tool_calls.len() == 0 ==> with_choices(stream, seq![one]).calls == stream.calls,
        forall|piece: OpenAiStreamToolCallView|
            one.tool_calls == seq![piece] ==> with_choices(stream, seq![one]).calls
                == #[trigger] with_delta(stream.calls, piece),
        one.content matches Some(text) ==> told(seq![one]) == seq![
            ModelStreamEventView::AssistantDelta { text },
        ],
        one.content is None ==> told(seq![one]).len() == 0,
    decreases second.len(),
{
    assert(seq![one].drop_last() =~= Seq::<OpenAiStreamDeltaView>::empty());
    reveal_with_fuel(with_choices, 3);
    reveal_with_fuel(told, 3);
    reveal_with_fuel(with_deltas, 3);
    assert(stream.text + Seq::<char>::empty() =~= stream.text);
    if let Some(text) = one.content {
        assert(told(seq![one]) =~= seq![ModelStreamEventView::AssistantDelta { text }]);
    }
    assert forall|piece: OpenAiStreamToolCallView|
        one.tool_calls == seq![piece] implies with_choices(stream, seq![one]).calls
        == #[trigger] with_delta(stream.calls, piece) by {
        assert(seq![piece].drop_last() =~= Seq::<OpenAiStreamToolCallView>::empty());
    }
    if second.len() == 0 {
        assert(first + second =~= first);
        assert(told(first) + told(second) =~= told(first));
    } else {
        law_pieces_are_taken_in_order(stream, first, second.drop_last(), one);
        assert((first + second).drop_last() =~= first + second.drop_last());
        assert(told(first + second) =~= told(first) + told(second));
    }
}

/// Pieces of calls are taken in one after another.
pub proof fn law_call_pieces_are_taken_in_order(
    calls: Seq<(usize, PartialToolCallView)>,
    first: Seq<OpenAiStreamToolCallView>,
    second: Seq<OpenAiStreamToolCallView>,
)
    ensures
        with_deltas(calls, first + second) == with_deltas(with_deltas(calls, first), second),
        second.len() == 1 ==> with_deltas(calls, second) == with_delta(calls, second[0]),
        second.len() == 0 ==> with_deltas(calls, second) == calls,
    decreases second.len(),
{
    reveal_with_fuel(with_deltas, 3);
    if second.len() == 0 {
        assert(first + second =~= first);
    } else {
        law_call_pieces_are_taken_in_order(calls, first, second.drop_last());
        assert((first + second).drop_last() =~= first + second.drop_last());
    }
}

// ---------------------------------------------------------------------------
// Frames and lines

/// Frames, each with the empty line that ends it.
pub open spec fn with_ends(frames: Seq<Seq<char>>) -> Seq<char>
    decreases frames.len(),
{
    if frames.len() == 0 {
        Seq::empty()
    } else {
        frames[0] + seq!['\n', '\n'] + with_ends(frames.skip(1))
    }
}

/// Whether a text has an empty line.
pub open spec fn has_end(text: Seq<char>) -> bool {
    exists|i: int| 0 <= i < text.len() - 1 && #[trigger] text[i] == '\n' && text[i + 1] == '\n'
}

proof fn lemma_frame_end_first(text: Seq<char>)
    ensures
        match model::frame_end(text) {
            Some(i) => 0 <= i && i + 2 <= text.len() && text[i] == '\n' && text[i + 1] == '\n'
                && !has_end(text.take(i)),
            None => !has_end(text),
        },
    decreases text.len(),
{
    model::lemma_frame_end(text);
    if text.len() >= 2 && !(text[0] == '\n' && text[1] == '\n') {
        let rest = text.skip(1);
        lemma_frame_end_first(rest);
        match model::frame_end(rest) {
            Some(i) => {
                if has_end(text.take(i + 1)) {
                    let k = choose|k: int|
                        0 <= k < text.take(i + 1).len() - 1 && #[trigger] text.take(i + 1)[k]
                            == '\n' && text.take(i + 1)[k + 1] == '\n';
                    if k > 0 {
                        assert(rest.take(i)[k - 1] == '\n' && rest.take(i)[k - 1 + 1] == '\n');
                    }
                }
            },
            None => {
                if has_end(text) {
                    let k = choose|k: int|
                        0 <= k < text.len() - 1 && #[trigger] text[k] == '\n' && text[k + 1]
                            == '\n';
                    assert(k > 0);
                    assert(rest[k - 1] == '\n' && rest[k - 1 + 1] == '\n');
                }
            },
        }
    }
}

/// A stream is cut into frames at its empty lines and nowhere else, and nothing is
/// lost: the frames with their ends, and what is left over, are the text; no frame
/// has an empty line in it, and neither has what is left over.
pub proof fn law_frames_are_the_text(text: Seq<char>)
    ensures
        with_ends(frames(text)) + unfinished(text) == text,
        forall|k: int| 0 <= k < frames(text).len() ==> !has_end(#[trigger] frames(text)[k]),
        !has_end(unfinished(text)),
    decreases text.len(),
{
    lemma_frame_end_first(text);
    match model::frame_end(text) {
        Some(i) => {
            let rest = text.skip(i + 2);
            let all = frames(text);
            law_frames_are_the_text(rest);
            assert(all == seq![text.take(i)] + frames(rest));
            assert(all.skip(1) =~= frames(rest));
            assert(text =~= text.take(i) + seq!['\n', '\n'] + rest);
            assert(with_ends(all) + unfinished(text) =~= text.take(i) + seq!['\n', '\n'] + (
            with_ends(frames(rest)) + unfinished(rest)));
            assert forall|k: int| 0 <= k < all.len() implies !has_end(#[trigger] all[k]) by {
                if k > 0 {
                    assert(all[k] == frames(rest)[k - 1]);
                }
            }
        },
        None => {
            assert(with_ends(frames(text)) + unfinished(text) =~= text);
        },
    }
}

/// What is left over at the end of a stream is read as a frame exactly where some of
/// it is no white space, and then all of it is.
pub proof fn law_left_over_is_read(stream: ChatStreamView)
    ensures
        (exists|i: int| 0 <= i < stream.buffer.len() && !text::white_space(stream.buffer[i]))
            ==> left_over(stream) == Some(stream.buffer),
        (forall|i: int| 0 <= i < stream.buffer.len() ==> text::white_space(stream.buffer[i]))
            ==> left_over(stream) is None,
{
    let ends = wording::law_trimming_takes_white_space_only(stream.buffer);
    if ends.0 < ends.1 {
        assert(!text::white_space(stream.buffer[ends.0]));
    }
}

/// Of an answer that came as a whole, its text is reported, once and all of it; of
/// calls nothing is.
pub proof fn law_whole_reply_is_told(text: Seq<char>)
    ensures
        reply_told(ModelResponseView::AssistantMessage { text }) =~= seq![
            ModelStreamEventView::AssistantDelta { text },
        ],
        forall|response: ModelResponseView|
            !(response is AssistantMessage) ==> (#[trigger] reply_told(response)).len() == 0,
{
}

/// A request that the server refused is reported with the status and all that the
/// server said.
pub proof fn law_refusal_says_why(status: Seq<char>, raw: Seq<char>)
    ensures
        model::refusal_words(status, raw, true) =~= "HTTP status "@ + status
            + " for streamed chat/completions: "@ + raw,
        model::refusal_words(status, raw, false) =~= "HTTP status "@ + status
            + " for chat/completions: "@ + raw,
{
}

/// The lines of a text are what stands between its line ends, in order; a carriage
/// return before a line end is no part of the line.
pub proof fn law_lines(line: Seq<char>, rest: Seq<char>)
    requires
        forall|j: int| 0 <= j < line.len() ==> #[trigger] line[j] != '\n',
    ensures
        lines(Seq::empty()).len() == 0,
        line.len() > 0 ==> lines(line) == seq![line],
        lines(line + seq!['\n'] + rest) == seq![
            if line.len() > 0 && line.last() == '\r' {
                line.drop_last()
            } else {
                line
            },
        ] + lines(rest),
{
    let whole = line + seq!['\n'] + rest;
    let at = line.len() as int;
    model::lemma_line_end(line);
    model::lemma_line_end(whole);
    assert(whole[at] == '\n');
    assert forall|j: int| 0 <= j < at implies #[trigger] whole[j] != '\n' by {
        assert(whole[j] == line[j]);
    }
    assert(whole.take(at) =~= line);
    assert(whole.skip(at + 1) =~= rest);
}

/// A line carries what follows `data:`, without white space around it, unless that
/// is nothing or the word that ends a stream; any other line carries nothing.
pub proof fn law_data_of_a_line(line: Seq<char>, rest: Seq<char>)
    ensures
        ({
            let data = text::trimmed(rest);
            line_data("data:"@ + rest) == if data.len() == 0 || data == "[DONE]"@ {
                None
            } else {
                Some(data)
            }
        }),
        !"data:"@.is_prefix_of(line) ==> line_data(line) is None,
{
    let whole = "data:"@ + rest;
    let n = "data:"@.len() as int;
    assert(whole.subrange(0, n) =~= "data:"@);
    assert(whole.skip(n) =~= rest);
    if line.len() >= n {
        assert(line.subrange(0, n) =~= line.take(n));
    }
}

/// What lines carry is what each of them carries, in their order.
pub proof fn law_data_of_lines(first: Seq<Seq<char>>, second: Seq<Seq<char>>, line: Seq<char>)
    ensures
        data_of(first + second) == data_of(first) + data_of(second),
        line_data(line) matches Some(data) ==> data_of(seq![line]) == seq![data],
        line_data(line) is None ==> data_of(seq![line]).len() == 0,
    decreases second.len(),
{
    reveal_with_fuel(data_of, 3);
    assert(seq![line].drop_last() =~= Seq::<Seq<char>>::empty());
    if let Some(data) = line_data(line) {
        assert(data_of(seq![line]) =~= seq![data]);
    }
    if second.len() == 0 {
        assert(first + second =~= first);
        assert(data_of(first) + data_of(second) =~= data_of(first));
    } else {
        law_data_of_lines(first, second.drop_last(), line);
        assert((first + second).drop_last() =~= first + second.drop_last());
        assert(data_of(first + second) =~= data_of(first) + data_of(second));
    }
}

// ---------------------------------------------------------------------------
// A whole answer

/// Whether a call that came as a whole reads as a call.
pub open spec fn reads_as(sent: OpenAiToolCallView, call: ModelFunctionCallView) -> bool {
    &&& call.call_id == sent.id
    &&& call.name == sent.name
    &&& json::json_read(sent.arguments) == json::Reading::Document(call.arguments)
}

/// Whether a call that came as a whole has arguments that cannot be read.
pub open spec fn unreadable(sent: OpenAiToolCallView, e: AgentErrorView) -> bool {
    json::json_read(sent.arguments) matches json::Reading::Refused(words) && e
        == AgentErrorView::Model(
        "invalid JSON arguments for tool call "@ + sent.id + ": "@ + words,
    )
}

proof fn lemma_received_calls(sent: Seq<OpenAiToolCallView>)
    ensures
        match model::received_calls(sent) {
            Ok(calls) => calls.len() == sent.len() && forall|i: int|
                0 <= i < sent.len() ==> reads_as(#[trigger] sent[i], calls[i]),
            Err(e) => exists|i: int|
                0 <= i < sent.len() && unreadable(#[trigger] sent[i], e) && forall|j: int|
                    0 <= j < i ==> json::json_read((#[trigger] sent[j]).arguments) is Document,
        },
    decreases sent.len(),
{
    if sent.len() > 0 {
        let less = sent.drop_last();
        let last = sent.len() - 1;
        lemma_received_calls(less);
        assert forall|i: int| 0 <= i < last implies #[trigger] sent[i] == less[i] by {}
        match model::received_calls(less) {
            Ok(earlier) => {
                assert forall|j: int| 0 <= j < last implies json::json_read(
                    (#[trigger] sent[j]).arguments,
                ) is Document by {
                    assert(reads_as(less[j], earlier[j]));
                }
                if let Err(e) = model::received_call(sent.last()) {
                    assert(unreadable(sent[last], e));
                }
            },
            Err(e) => {
                let i = choose|i: int|
                    0 <= i < less.len() && unreadable(#[trigger] less[i], e) && forall|j: int|
                        0 <= j < i ==> json::json_read(
                            (#[trigger] less[j]).arguments,
                        ) is Document;
                assert(unreadable(sent[i], e));
            },
        }
    }
}

/// A whole answer is read from its first choice: all its calls where it has any
/// list of them, in their order, and else its text; an answer without a choice, or
/// without both, and one with a call that cannot be read, is refused.
pub proof fn law_answer_is_read(choices: Seq<OpenAiResponseMessageView>)
    ensures
        choices.len() == 0 ==> received(choices) == Err::<ModelResponseView, AgentErrorView>(
            AgentErrorView::Model("chat/completions returned no choices"@),
        ),
        choices.len() > 0 ==> match (choices[0].tool_calls, choices[0].content) {
            (Some(sent), _) => match received(choices) {
                Ok(ModelResponseView::FunctionCalls { calls }) => calls.len() == sent.calls.len()
                    && forall|i: int|
                    0 <= i < calls.len() ==> reads_as(sent.calls[i], #[trigger] calls[i]),
                Ok(_) => false,
                Err(e) => exists|i: int|
                    0 <= i < sent.calls.len() && unreadable(#[trigger] sent.calls[i], e)
                        && forall|j: int|
                        0 <= j < i ==> json::json_read(
                            (#[trigger] sent.calls[j]).arguments,
                        ) is Document,
            },
            (None, Some(text)) => received(choices) == Ok::<ModelResponseView, AgentErrorView>(
                ModelResponseView::AssistantMessage { text },
            ),
            (None, None) => received(choices) == Err::<ModelResponseView, AgentErrorView>(
                AgentErrorView::Model("chat/completions response had no content or tool calls"@),
            ),
        },
{
    if choices.len() > 0 {
        if let Some(sent) = choices[0].tool_calls {
            lemma_received_calls(sent.calls);
            if let Ok(calls) = model::received_calls(sent.calls) {
                assert forall|i: int| 0 <= i < calls.len() implies reads_as(
                    sent.calls[i],
                    #[trigger] calls[i],
                ) by {
                    assert(reads_as(sent.calls[i], calls[i]));
                }
            }
        }
    }
}

// ---------------------------------------------------------------------------
// A request

/// A request asks the model that is named with every message and every function, in
/// their order, as one object.
pub proof fn law_request_carries_all(
    name: Seq<char>,
    request: ModelRequestView,
    stream: bool,
)
    ensures
        ({
            let sent = sent_request(name, request, stream);
            &&& sent.model == name
            &&& sent.stream == stream
            &&& sent.tools == request.functions
            &&& sent.messages.len() == request.messages.len()
            &&& forall|i: int|
                0 <= i < sent.messages.len() ==> carries(#[trigger] sent.messages[i], request.messages[i])
            &&& request_body(sent) matches Json::Fields(fields)
            &&& fields.dom() == set!["model"@, "messages"@, "tools"@, "tool_choice"@, "stream"@]
            &&& fields["model"@] == Json::Text(name)
            &&& fields["tool_choice"@] == Json::Text("auto"@)
            &&& fields["stream"@] == Json::Bool(stream)
            &&& fields["messages"@] matches Json::List(list)
            &&& list.len() == request.messages.len()
            &&& forall|i: int|
                0 <= i < list.len() ==> #[trigger] list[i] == message_body(sent.messages[i])
            &&& fields["tools"@] matches Json::List(tools)
            &&& tools.len() == request.functions.len()
            &&& forall|i: int|
                0 <= i < tools.len() ==> offers(#[trigger] tools[i], request.functions[i])
        }),
{
    reveal_strlit("model");
    reveal_strlit("messages");
    reveal_strlit("tools");
    reveal_strlit("tool_choice");
    reveal_strlit("stream");
    assert("model"@.len() == 5 && "messages"@.len() == 8 && "tools"@.len() == 5
        && "tool_choice"@.len() == 11 && "stream"@.len() == 6);
    assert("model"@[0] != "tools"@[0]);
    let sent = sent_request(name, request, stream);
    assert forall|i: int| 0 <= i < sent.messages.len() implies carries(
        #[trigger] sent.messages[i],
        request.messages[i],
    ) by {}
    assert forall|i: int| 0 <= i < request.functions.len() implies offers(
        tool_body(#[trigger] request.functions[i]),
        request.functions[i],
    ) by {
        lemma_offers(request.functions[i]);
    }
    assert(request_body(sent) matches Json::Fields(fields) && fields.dom()
        =~= set!["model"@, "messages"@, "tools"@, "tool_choice"@, "stream"@]);
    assert(request_body(sent) matches Json::Fields(fields) && fields["tools"@] matches Json::List(
        tools,
    ) && forall|i: int|
        0 <= i < tools.len() ==> #[trigger] tools[i] == tool_body(request.functions[i]));
}

/// Whether a message is sent with all that it holds; arguments and outputs go as
/// their JSON text.
pub open spec fn carries(sent: OpenAiMessageView, message: ChatMessageView) -> bool {
    match message {
        ChatMessageView::System { content } => sent.role == "system"@ && sent.content == Some(
            content,
        ) && sent.tool_call_id is None && sent.tool_calls.len() == 0,
        ChatMessageView::User { content } => sent.role == "user"@ && sent.content == Some(content)
            && sent.tool_call_id is None && sent.tool_calls.len() == 0,
        ChatMessageView::Assistant { content, tool_calls } => {
            &&& sent.role == "assistant"@
            &&& sent.content == content
            &&& sent.tool_call_id is None
            &&& sent.tool_calls.len() == tool_calls.len()
            &&& forall|i: int|
                0 <= i < tool_calls.len() ==> {
                    &&& (#[trigger] sent.tool_calls[i]).id == tool_calls[i].call_id
                    &&& sent.tool_calls[i].name == tool_calls[i].name
                    &&& sent.tool_calls[i].arguments == json::json_text(tool_calls[i].arguments)
                }
        },
        ChatMessageView::Tool { tool_call_id, name, content } => sent.role == "tool"@
            && sent.content == Some(json::json_text(content)) && sent.tool_call_id == Some(
            tool_call_id,
        ) && sent.tool_calls.len() == 0,
    }
}

/// Whether an object offers a function.
pub open spec fn offers(value: Json, function: FunctionSpecView) -> bool {
    &&& value matches Json::Fields(fields)
    &&& fields.dom() == set!["type"@, "function"@]
    &&& fields["type"@] == Json::Text("function"@)
    &&& fields["function"@] matches Json::Fields(inner)
    &&& inner.dom() == set!["name"@, "description"@, "parameters"@]
    &&& inner["name"@] == Json::Text(function.name)
    &&& inner["description"@] == Json::Text(function.description)
    &&& inner["parameters"@] == function.parameters
}

proof fn lemma_offers(function: FunctionSpecView)
    ensures
        offers(tool_body(function), function),
{
    reveal_strlit("type");
    reveal_strlit("function");
    reveal_strlit("name");
    reveal_strlit("description");
    reveal_strlit("parameters");
    assert("type"@.len() == 4 && "function"@.len() == 8 && "name"@.len() == 4
        && "description"@.len() == 11 && "parameters"@.len() == 10);
}

/// A message goes as an object with what it has and nothing else.
pub proof fn law_message_body(message: OpenAiMessageView)
    ensures
        ({
            &&& message_body(message) matches Json::Fields(fields)
            &&& fields.contains_key("role"@) && fields["role"@] == Json::Text(message.role)
            &&& match message.content {
                Some(content) => fields.contains_key("content"@) && fields["content"@]
                    == Json::Text(content),
                None => !fields.contains_key("content"@),
            }
            &&& match message.tool_call_id {
                Some(id) => fields.contains_key("tool_call_id"@) && fields["tool_call_id"@]
                    == Json::Text(id),
                None => !fields.contains_key("tool_call_id"@),
            }
            &&& fields.contains_key("tool_calls"@) <==> message.tool_calls.len() > 0
            &&& message.tool_calls.len() > 0 ==> {
                &&& fields["tool_calls"@] matches Json::List(list)
                &&& list.len() == message.tool_calls.len()
                &&& forall|i: int|
                    0 <= i < list.len() ==> {
                        &&& #[trigger] list[i] matches Json::Fields(call)
                        &&& call.dom() == set!["id"@, "type"@, "function"@]
                        &&& call["id"@] == Json::Text(message.tool_calls[i].id)
                        &&& call["type"@] == Json::Text("function"@)
                        &&& call["function"@] matches Json::Fields(inner)
                        &&& inner.dom() == set!["name"@, "arguments"@]
                        &&& inner["name"@] == Json::Text(message.tool_calls[i].name)
                        &&& inner["arguments"@] == Json::Text(message.tool_calls[i].arguments)
                    }
            }
        }),
{
    reveal_strlit("role");
    reveal_strlit("content");
    reveal_strlit("tool_call_id");
    reveal_strlit("tool_calls");
    reveal_strlit("id");
    reveal_strlit("type");
    reveal_strlit("function");
    reveal_strlit("name");
    reveal_strlit("arguments");
    assert("role"@.len() == 4 && "content"@.len() == 7 && "tool_call_id"@.len() == 12
        && "tool_calls"@.len() == 10 && "id"@.len() == 2 && "type"@.len() == 4 && "function"@.len()
        == 8 && "name"@.len() == 4 && "arguments"@.len() == 9);
}

/// Completions are asked for below the address that was given, whatever slashes it
/// ends in.
pub proof fn law_where_completions_are(base: Seq<char>, slashes: nat)
    requires
        base.len() == 0 || base.last() != '/',
    ensures
        model::completions_url(base + Seq::new(slashes, |i: int| '/')) == base
            + "/chat/completions"@,
    decreases slashes,
{
    let whole = base + Seq::new(slashes, |i: int| '/');
    if slashes == 0 {
        assert(whole =~= base);
    } else {
        law_where_completions_are(base, (slashes - 1) as nat);
        assert(whole.drop_last() =~= base + Seq::new((slashes - 1) as nat, |i: int| '/'));
        assert(whole.last() == '/');
    }
}

} // verus!
