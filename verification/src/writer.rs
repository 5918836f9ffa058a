//! The writing side of a connection.

use vstd::prelude::*;
#[allow(unused_imports)]
use vstd::utf8::encode_utf8;

#[allow(unused_imports)]
use crate::frame::{frame, frames, law_frames_read_back, lemma_frames_push, read_frames};
use crate::json::{Json, JsonView};
#[allow(unused_imports)]
use crate::message::message_json;
use crate::message::{MessageView, RawJsonRpc};

verus! {

/// What the callers tell the writer.
pub enum WriterControl {
    /// Write this message.
    Write(RawJsonRpc),
    /// Stop writing.
    Shutdown,
}

/// What a [`WriterControl`] stands for.
pub enum WriterControlView {
    Write(MessageView),
    Shutdown,
}

impl View for WriterControl {
    type V = WriterControlView;

    open spec fn view(&self) -> WriterControlView {
        match self {
            WriterControl::Write(message) => WriterControlView::Write(message@),
            WriterControl::Shutdown => WriterControlView::Shutdown,
        }
    }
}

/// What the writer does next.
pub enum WriterAction {
    /// Write the text of this value in a frame, and flush.
    Send(Json),
    /// Close the stream.
    Stop,
}

/// What a [`WriterAction`] stands for.
pub enum WriterActionView {
    Send(JsonView),
    Stop,
}

impl View for WriterAction {
    type V = WriterActionView;

    open spec fn view(&self) -> WriterActionView {
        match self {
            WriterAction::Send(json) => WriterActionView::Send(json@),
            WriterAction::Stop => WriterActionView::Stop,
        }
    }
}

/// The writing side of a connection.
pub struct Writer {
    stopped: bool,
}

/// What a [`Writer`] stands for.
pub struct WriterView {
    /// Whether the writer has stopped for good.
    pub stopped: bool,
}

impl View for Writer {
    type V = WriterView;

    closed spec fn view(&self) -> WriterView {
        WriterView { stopped: self.stopped }
    }
}

impl WriterView {
    /// The next state and action. There is no control once there are no callers; the writer then
    /// stops as if it were told to, and a writer that has stopped sends nothing more.
    pub open spec fn step(self, control: Option<WriterControlView>) -> (
        WriterView,
        WriterActionView,
    ) {
        match control {
            Some(WriterControlView::Write(message)) if !self.stopped => (
                self,
                WriterActionView::Send(message_json(message)),
            ),
            _ => (WriterView { stopped: true }, WriterActionView::Stop),
        }
    }

    /// The state after controls in a row.
    pub open spec fn after(self, controls: Seq<Option<WriterControlView>>) -> WriterView
        decreases controls.len(),
    {
        if controls.len() == 0 {
            self
        } else {
            self.after(controls.drop_last()).step(controls.last()).0
        }
    }

    /// The values that are sent for controls in a row.
    pub open spec fn sent(self, controls: Seq<Option<WriterControlView>>) -> Seq<JsonView>
        decreases controls.len(),
    {
        if controls.len() == 0 {
            Seq::empty()
        } else {
            let before = self.sent(controls.drop_last());
            match self.after(controls.drop_last()).step(controls.last()).1 {
                WriterActionView::Send(json) => before.push(json),
                WriterActionView::Stop => before,
            }
        }
    }

    /// The bytes that are written for controls in a row, where `text` is the text of a value: each
    /// value that is sent adds the bytes of its text in a frame.
    pub open spec fn written(
        self,
        controls: Seq<Option<WriterControlView>>,
        text: spec_fn(JsonView) -> Seq<char>,
    ) -> Seq<u8>
        decreases controls.len(),
    {
        if controls.len() == 0 {
            Seq::empty()
        } else {
            let before = self.written(controls.drop_last(), text);
            match self.after(controls.drop_last()).step(controls.last()).1 {
                WriterActionView::Send(json) => before + encode_utf8(frame(text(json))),
                WriterActionView::Stop => before,
            }
        }
    }
}

impl Writer {
    /// A writer that has not stopped.
    pub fn new() -> (writer: Writer)
        ensures
            writer@ == (WriterView { stopped: false }),
    {
        Writer { stopped: false }
    }

    /// Takes what the callers tell the writer, `None` once there are no callers, and says what to
    /// do next.
    pub fn step(&mut self, control: Option<WriterControl>) -> (action: WriterAction)
        ensures
            (final(self)@, action@) == old(self)@.step(
                match control {
                    Some(control) => Some(control@),
                    None => None,
                },
            ),
            match control {
                Some(WriterControl::Write(message)) if !old(self)@.stopped => {
                    &&& action matches WriterAction::Send(json)
                    &&& json@ == message_json(message@)
                    &&& !final(self)@.stopped
                },
                _ => action is Stop && final(self)@.stopped,
            },
    {
        if !self.stopped {
            if let Some(WriterControl::Write(message)) = control {
                return WriterAction::Send(message.to_json());
            }
        }
        self.stopped = true;
        WriterAction::Stop
    }
}

/// The controls that ask to write messages in a row.
pub open spec fn writes(messages: Seq<MessageView>) -> Seq<Option<WriterControlView>> {
    messages.map_values(|message: MessageView| Some(WriterControlView::Write(message)))
}

/// The JSON forms of messages in a row.
pub open spec fn messages_json(messages: Seq<MessageView>) -> Seq<JsonView> {
    messages.map_values(|message: MessageView| message_json(message))
}

/// A writer that was not told to stop sends every message, in order, and goes on.
pub proof fn law_messages_are_sent_in_order(writer: WriterView, messages: Seq<MessageView>)
    requires
        !writer.stopped,
    ensures
        writer.sent(writes(messages)) == messages_json(messages),
        writer.after(writes(messages)) == writer,
    decreases messages.len(),
{
    if messages.len() == 0 {
        assert(messages_json(messages) =~= Seq::empty());
    } else {
        let before = messages.drop_last();
        law_messages_are_sent_in_order(writer, before);
        assert(writes(messages).drop_last() =~= writes(before));
        assert(messages_json(messages) =~= messages_json(before).push(
            message_json(messages.last()),
        ));
    }
}

/// A stop message ends the writing. What is sent are the messages before the first control that
/// asks for no message (a stop message, or that there are no callers), in order; nothing behind it
/// is sent, and the writer has stopped.
pub proof fn law_stop_ends_the_writing(
    writer: WriterView,
    messages: Seq<MessageView>,
    stop: Option<WriterControlView>,
    later: Seq<Option<WriterControlView>>,
)
    requires
        !writer.stopped,
        stop matches Some(control) ==> control is Shutdown,
    ensures
        writer.sent(writes(messages).push(stop) + later) == messages_json(messages),
        writer.after(writes(messages).push(stop) + later).stopped,
    decreases later.len(),
{
    let controls = writes(messages).push(stop) + later;
    if later.len() == 0 {
        assert(controls.drop_last() =~= writes(messages));
        law_messages_are_sent_in_order(writer, messages);
    } else {
        assert(controls.drop_last() =~= writes(messages).push(stop) + later.drop_last());
        law_stop_ends_the_writing(writer, messages, stop, later.drop_last());
    }
}

/// What is written are the frames of the values that are sent, in order, with nothing before,
/// between or behind them.
pub proof fn law_sent_values_are_written_in_frames(
    writer: WriterView,
    controls: Seq<Option<WriterControlView>>,
    text: spec_fn(JsonView) -> Seq<char>,
)
    ensures
        writer.written(controls, text) == frames(writer.sent(controls).map_values(text)),
    decreases controls.len(),
{
    let texts = writer.sent(controls).map_values(text);
    if controls.len() == 0 {
        assert(texts =~= Seq::empty());
    } else {
        let earlier = writer.sent(controls.drop_last());
        law_sent_values_are_written_in_frames(writer, controls.drop_last(), text);
        if let WriterActionView::Send(json) = writer.after(controls.drop_last()).step(
            controls.last(),
        ).1 {
            assert(texts =~= earlier.map_values(text).push(text(json)));
            lemma_frames_push(earlier.map_values(text), text(json));
        }
    }
}

/// The bytes that are written for messages in a row are the frames of their texts, in order.
pub proof fn law_messages_are_written_in_frames(
    writer: WriterView,
    messages: Seq<MessageView>,
    text: spec_fn(JsonView) -> Seq<char>,
)
    requires
        !writer.stopped,
    ensures
        writer.written(writes(messages), text) == frames(messages_json(messages).map_values(text)),
{
    law_messages_are_sent_in_order(writer, messages);
    law_sent_values_are_written_in_frames(writer, writes(messages), text);
}

/// Nothing is written behind a stop message, or once there are no callers.
pub proof fn law_nothing_is_written_behind_a_stop(
    writer: WriterView,
    messages: Seq<MessageView>,
    stop: Option<WriterControlView>,
    later: Seq<Option<WriterControlView>>,
    text: spec_fn(JsonView) -> Seq<char>,
)
    requires
        !writer.stopped,
        stop matches Some(control) ==> control is Shutdown,
    ensures
        writer.written(writes(messages).push(stop) + later, text) == frames(
            messages_json(messages).map_values(text),
        ),
{
    law_stop_ends_the_writing(writer, messages, stop, later);
    law_sent_values_are_written_in_frames(writer, writes(messages).push(stop) + later, text);
}

/// The messages in what is written are the texts that were written, in order.
pub proof fn law_written_texts_read_back(
    writer: WriterView,
    messages: Seq<MessageView>,
    text: spec_fn(JsonView) -> Seq<char>,
)
    requires
        !writer.stopped,
        forall|i: int|
            0 <= i < messages.len() ==> encode_utf8(
                text(message_json(#[trigger] messages[i])),
            ).len() <= usize::MAX,
    ensures
        read_frames(writer.written(writes(messages), text), messages.len()) == Some(
            messages_json(messages).map_values(text).map_values(
                |written: Seq<char>| encode_utf8(written),
            ),
        ),
{
    let texts = messages_json(messages).map_values(text);
    assert forall|i: int| 0 <= i < texts.len() implies encode_utf8(#[trigger] texts[i]).len()
        <= usize::MAX by {
        assert(texts[i] == text(message_json(messages[i])));
    }
    law_messages_are_written_in_frames(writer, messages, text);
    law_frames_read_back(texts);
}

/// A writer that goes on sends the JSON form of the message that it is to write, and goes on. A
/// stop message, or that there are no callers, stops it, and a writer that has stopped sends
/// nothing.
pub proof fn law_writer_sends_until_it_stops(
    message: MessageView,
    control: Option<WriterControlView>,
)
    ensures
        (WriterView { stopped: false }).step(Some(WriterControlView::Write(message))) == (
            WriterView { stopped: false },
            WriterActionView::Send(message_json(message)),
        ),
        (WriterView { stopped: false }).step(Some(WriterControlView::Shutdown)) == (
            WriterView { stopped: true },
            WriterActionView::Stop,
        ),
        (WriterView { stopped: false }).step(None) == (
            WriterView { stopped: true },
            WriterActionView::Stop,
        ),
        (WriterView { stopped: true }).step(control) == (
            WriterView { stopped: true },
            WriterActionView::Stop,
        ),
{
}

/// What the controls and actions of a writer are viewed as.
pub proof fn law_controls_and_actions_are_viewed(message: RawJsonRpc, json: Json)
    ensures
        WriterControl::Write(message)@ == WriterControlView::Write(message@),
        WriterControl::Shutdown@ == WriterControlView::Shutdown,
        WriterAction::Send(json)@ == WriterActionView::Send(json@),
        WriterAction::Stop@ == WriterActionView::Stop,
{
}

/// A writer takes controls one by one: one more control leads to one more step, which sends and
/// writes behind what came before, or sends and writes nothing more.
pub proof fn law_controls_are_taken_one_by_one(
    writer: WriterView,
    controls: Seq<Option<WriterControlView>>,
    control: Option<WriterControlView>,
    text: spec_fn(JsonView) -> Seq<char>,
)
    ensures
        writer.after(Seq::empty()) == writer,
        writer.sent(Seq::empty()) == Seq::<JsonView>::empty(),
        writer.written(Seq::empty(), text) == Seq::<u8>::empty(),
        writer.after(controls.push(control)) == writer.after(controls).step(control).0,
        match writer.after(controls).step(control).1 {
            WriterActionView::Send(json) => {
                &&& writer.sent(controls.push(control)) == writer.sent(controls).push(json)
                &&& writer.written(controls.push(control), text) == writer.written(controls, text)
                    + encode_utf8(frame(text(json)))
            },
            WriterActionView::Stop => {
                &&& writer.sent(controls.push(control)) == writer.sent(controls)
                &&& writer.written(controls.push(control), text) == writer.written(controls, text)
            },
        },
{
    assert(controls.push(control).drop_last() =~= controls);
}

/// Each message has its control and its JSON form, in its place.
pub proof fn law_messages_keep_their_places(messages: Seq<MessageView>)
    ensures
        writes(messages).len() == messages.len(),
        messages_json(messages).len() == messages.len(),
        forall|i: int|
            0 <= i < messages.len() ==> #[trigger] writes(messages)[i] == Some(
                WriterControlView::Write(messages[i]),
            ),
        forall|i: int|
            0 <= i < messages.len() ==> #[trigger] messages_json(messages)[i] == message_json(
                messages[i],
            ),
{
}

} // verus!
