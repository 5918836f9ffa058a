//! The reading side of a connection: what to read next, and where what was read goes.
//!
//! [`Reader::step`] takes the event that answers the last action and says which action comes
//! next. The awaiters are of any type: the reader only keeps them and hands them back.

use std::collections::BTreeMap;

use vstd::prelude::*;
#[allow(unused_imports)]
use vstd::utf8::decode_utf8;

use crate::frame::parse_content_length;
#[allow(unused_imports)]
use crate::frame::{content_length, first_line, lemma_first_line_is_a_prefix, read_frame};
use crate::json::{Json, JsonView};
use crate::message::{MessageView, RawJsonRpc, RpcError, RpcErrorView};
#[allow(unused_imports)]
use crate::message::{carries_a_value, law_message_reads_back, message_from};
#[allow(unused_imports)]
use crate::text::trimmed_end;
#[allow(unused_imports)]
use crate::writer::{WriterActionView, WriterControlView, WriterView};

verus! {

/// What the callers tell the reader.
pub enum ReaderControl<T> {
    /// The response to the request with this id goes to this awaiter.
    Await(u64, T),
}

/// Why the reader cannot go on.
#[derive(Clone, Copy, Debug, PartialEq, Eq, Structural)]
pub enum ReaderError {
    /// The header line announces no number of bytes.
    ContentLength,
    /// What was read is no message.
    Message,
}

/// What the reader asks for.
pub enum ReaderAction<T> {
    /// Read a line.
    ReadLine,
    /// Read this number of bytes.
    ReadExact(usize),
    /// Parse these bytes as JSON.
    Parse(Vec<u8>),
    /// Collect what the callers have told the reader so far.
    DrainControls,
    /// The server notifies of something.
    Notification { method: String, params: Json },
    /// Hand the outcome of a request to its awaiter.
    Deliver(T, Result<Json, RpcError>),
    /// A response came for a request that nobody waits for.
    NoAwaiter(u64, RawJsonRpc),
    /// A message came that the reader has no use for.
    Unhandled(RawJsonRpc),
    /// Stop reading.
    Fail(ReaderError),
}

/// What answers an action.
pub enum ReaderEvent<T> {
    /// The message before is dealt with, or there was none yet.
    Ready,
    /// A line was read.
    Line(String),
    /// Bytes were read.
    Bytes(Vec<u8>),
    /// Bytes were parsed, if they are JSON.
    Parsed(Option<Json>),
    /// What the callers have told the reader.
    Controls(Vec<ReaderControl<T>>),
}

/// Where the reader stands in a frame.
enum Stage {
    Idle,
    Header,
    Separator(usize),
    Body,
    Parsing,
    Draining(u64, RawJsonRpc),
    Failed,
}

/// The reading side of a connection.
pub struct Reader<T> {
    stage: Stage,
    awaiters: BTreeMap<u64, T>,
}

/// What a stage stands for.
pub enum StageView {
    /// Between two messages.
    Idle,
    /// The header line comes next.
    Header,
    /// The line behind the header comes next, and then this number of bytes.
    Separator(usize),
    /// The bytes of the message come next.
    Body,
    /// The message comes next.
    Parsing,
    /// What the callers said comes next; then this response, to this id, is handed on.
    Draining(u64, MessageView),
    /// Nothing comes next.
    Failed,
}

/// What a [`Reader`] stands for: where it stands in a frame, and who waits for which id.
#[verifier::ext_equal]
#[verifier::reject_recursive_types(T)]
pub struct ReaderView<T> {
    pub stage: StageView,
    pub awaiters: Map<u64, T>,
}

/// What a [`ReaderAction`] stands for.
#[verifier::reject_recursive_types(T)]
pub enum ActionView<T> {
    ReadLine,
    ReadExact(usize),
    Parse(Seq<u8>),
    DrainControls,
    Notification { method: Seq<char>, params: JsonView },
    Deliver(T, Result<JsonView, RpcErrorView>),
    NoAwaiter(u64, MessageView),
    Unhandled(MessageView),
    Fail(ReaderError),
}

/// What a [`ReaderEvent`] stands for.
#[verifier::reject_recursive_types(T)]
pub enum EventView<T> {
    Ready,
    Line(Seq<char>),
    Bytes(Seq<u8>),
    Parsed(Option<JsonView>),
    Controls(Seq<ReaderControl<T>>),
}

impl<T> View for Reader<T> {
    type V = ReaderView<T>;

    closed spec fn view(&self) -> ReaderView<T> {
        ReaderView {
            stage: match self.stage {
                Stage::Idle => StageView::Idle,
                Stage::Header => StageView::Header,
                Stage::Separator(len) => StageView::Separator(len),
                Stage::Body => StageView::Body,
                Stage::Parsing => StageView::Parsing,
                Stage::Draining(id, message) => StageView::Draining(id, message@),
                Stage::Failed => StageView::Failed,
            },
            awaiters: self.awaiters@,
        }
    }
}

/// What an outcome stands for.
pub open spec fn outcome_view(outcome: Result<Json, RpcError>) -> Result<JsonView, RpcErrorView> {
    match outcome {
        Ok(result) => Ok(result@),
        Err(error) => Err(error@),
    }
}

impl<T> View for ReaderAction<T> {
    type V = ActionView<T>;

    open spec fn view(&self) -> ActionView<T> {
        match self {
            ReaderAction::ReadLine => ActionView::ReadLine,
            ReaderAction::ReadExact(len) => ActionView::ReadExact(*len),
            ReaderAction::Parse(bytes) => ActionView::Parse(bytes@),
            ReaderAction::DrainControls => ActionView::DrainControls,
            ReaderAction::Notification { method, params } => ActionView::Notification {
                method: method@,
                params: params@,
            },
            ReaderAction::Deliver(awaiter, outcome) => ActionView::Deliver(
                *awaiter,
                outcome_view(*outcome),
            ),
            ReaderAction::NoAwaiter(id, message) => ActionView::NoAwaiter(*id, message@),
            ReaderAction::Unhandled(message) => ActionView::Unhandled(message@),
            ReaderAction::Fail(error) => ActionView::Fail(*error),
        }
    }
}

impl<T> View for ReaderEvent<T> {
    type V = EventView<T>;

    open spec fn view(&self) -> EventView<T> {
        match self {
            ReaderEvent::Ready => EventView::Ready,
            ReaderEvent::Line(line) => EventView::Line(line@),
            ReaderEvent::Bytes(bytes) => EventView::Bytes(bytes@),
            ReaderEvent::Parsed(json) => EventView::Parsed(
                match json {
                    Some(json) => Some(json@),
                    None => None,
                },
            ),
            ReaderEvent::Controls(controls) => EventView::Controls(controls@),
        }
    }
}

/// Who waits for which id once the callers have said so: the last word on an id counts.
pub open spec fn registered<T>(
    awaiters: Map<u64, T>,
    controls: Seq<ReaderControl<T>>,
) -> Map<u64, T>
    decreases controls.len(),
{
    if controls.len() == 0 {
        awaiters
    } else {
        match controls.last() {
            ReaderControl::Await(id, awaiter) => registered(awaiters, controls.drop_last()).insert(
                id,
                awaiter,
            ),
        }
    }
}

/// The id of the request that a message responds to.
pub open spec fn responds_to(message: MessageView) -> Option<u64> {
    match message {
        MessageView::Call { .. } => None,
        MessageView::Result { id, .. } => Some(id),
        MessageView::Error { id, .. } => id,
    }
}

/// What a response says.
pub open spec fn outcome_of(message: MessageView) -> Result<JsonView, RpcErrorView>
    recommends
        !(message is Call),
{
    match message {
        MessageView::Call { .. } => arbitrary(),
        MessageView::Result { result, .. } => Ok(result),
        MessageView::Error { error, .. } => Err(error),
    }
}

impl<T> ReaderView<T> {
    /// The same awaiters at another stage.
    pub open spec fn at(self, stage: StageView) -> ReaderView<T> {
        ReaderView { stage, awaiters: self.awaiters }
    }

    /// Whether an event is of the kind that comes next.
    pub open spec fn expects(self, event: EventView<T>) -> bool {
        match self.stage {
            StageView::Idle => event is Ready,
            StageView::Header => event is Line,
            StageView::Separator(_) => event is Line,
            StageView::Body => event is Bytes,
            StageView::Parsing => event is Parsed,
            StageView::Draining(_, _) => event is Controls,
            StageView::Failed => false,
        }
    }

    /// What a message leads to: a notification is announced, a response waits until the callers
    /// are heard, and anything else is put aside.
    pub open spec fn on_message(self, message: MessageView) -> (ReaderView<T>, ActionView<T>) {
        match message {
            MessageView::Call { id: None, method, params } => (
                self.at(StageView::Idle),
                ActionView::Notification { method, params },
            ),
            _ => match responds_to(message) {
                Some(id) => (self.at(StageView::Draining(id, message)), ActionView::DrainControls),
                None => (self.at(StageView::Idle), ActionView::Unhandled(message)),
            },
        }
    }

    /// What a response leads to once the callers are heard: the awaiter of its id gets what it
    /// says and waits no longer.
    pub open spec fn on_response(
        self,
        id: u64,
        message: MessageView,
        controls: Seq<ReaderControl<T>>,
    ) -> (ReaderView<T>, ActionView<T>) {
        let awaiters = registered(self.awaiters, controls);
        if awaiters.contains_key(id) {
            (
                ReaderView { stage: StageView::Idle, awaiters: awaiters.remove(id) },
                ActionView::Deliver(awaiters[id], outcome_of(message)),
            )
        } else {
            (
                ReaderView { stage: StageView::Idle, awaiters },
                ActionView::NoAwaiter(id, message),
            )
        }
    }

    /// The next state and action.
    pub open spec fn step(self, event: EventView<T>) -> (ReaderView<T>, ActionView<T>)
        recommends
            self.expects(event),
    {
        match (self.stage, event) {
            (StageView::Idle, EventView::Ready) => (
                self.at(StageView::Header),
                ActionView::ReadLine,
            ),
            (StageView::Header, EventView::Line(line)) => match content_length(line) {
                Some(len) => (self.at(StageView::Separator(len)), ActionView::ReadLine),
                None => (
                    self.at(StageView::Failed),
                    ActionView::Fail(ReaderError::ContentLength),
                ),
            },
            (StageView::Separator(len), EventView::Line(_)) => (
                self.at(StageView::Body),
                ActionView::ReadExact(len),
            ),
            (StageView::Body, EventView::Bytes(bytes)) => (
                self.at(StageView::Parsing),
                ActionView::Parse(bytes),
            ),
            (StageView::Parsing, EventView::Parsed(json)) => match json {
                Some(json) => match message_from(json) {
                    Some(message) => self.on_message(message),
                    None => (
                        self.at(StageView::Failed),
                        ActionView::Fail(ReaderError::Message),
                    ),
                },
                None => (self.at(StageView::Failed), ActionView::Fail(ReaderError::Message)),
            },
            (StageView::Draining(id, message), EventView::Controls(controls)) => self.on_response(
                id,
                message,
                controls,
            ),
            _ => arbitrary(),
        }
    }
}

impl<T> Reader<T> {
    /// A response that is about to be handed on responds to the id that it is kept under.
    #[verifier::type_invariant]
    spec fn drains_a_response(self) -> bool {
        self.stage matches Stage::Draining(id, message) ==> responds_to(message@) == Some(id)
    }

    /// A reader between two messages for which nobody waits yet.
    pub fn new() -> (reader: Reader<T>)
        ensures
            reader@ == (ReaderView::<T> {
                stage: StageView::Idle,
                awaiters: Map::<u64, T>::empty(),
            }),
    {
        Reader { stage: Stage::Idle, awaiters: BTreeMap::new() }
    }

    /// Takes the event that answers the last action and says which action comes next.
    pub fn step(self, event: ReaderEvent<T>) -> (next: (Reader<T>, ReaderAction<T>))
        requires
            self@.expects(event@),
        ensures
            (next.0@, next.1@) == self@.step(event@),
    {
        proof {
            use_type_invariant(&self);
        }
        let Reader { stage, awaiters } = self;
        match (stage, event) {
            (Stage::Idle, _) => (Reader { stage: Stage::Header, awaiters }, ReaderAction::ReadLine),
            (Stage::Header, ReaderEvent::Line(line)) => match parse_content_length(line.as_str()) {
                Some(len) => (
                    Reader { stage: Stage::Separator(len), awaiters },
                    ReaderAction::ReadLine,
                ),
                None => (
                    Reader { stage: Stage::Failed, awaiters },
                    ReaderAction::Fail(ReaderError::ContentLength),
                ),
            },
            (Stage::Separator(len), _) => (
                Reader { stage: Stage::Body, awaiters },
                ReaderAction::ReadExact(len),
            ),
            (Stage::Body, ReaderEvent::Bytes(bytes)) => (
                Reader { stage: Stage::Parsing, awaiters },
                ReaderAction::Parse(bytes),
            ),
            (Stage::Parsing, ReaderEvent::Parsed(json)) => {
                let message = match json {
                    Some(json) => RawJsonRpc::from_json(json),
                    None => None,
                };
                match message {
                    Some(message) => Reader::on_message(awaiters, message),
                    None => (
                        Reader { stage: Stage::Failed, awaiters },
                        ReaderAction::Fail(ReaderError::Message),
                    ),
                }
            },
            (Stage::Draining(id, message), ReaderEvent::Controls(controls)) => Reader::on_response(
                awaiters,
                id,
                message,
                controls,
            ),
            _ => vstd::pervasive::unreached(),
        }
    }

    /// Takes a message.
    fn on_message(awaiters: BTreeMap<u64, T>, message: RawJsonRpc) -> (next: (
        Reader<T>,
        ReaderAction<T>,
    ))
        ensures
            (next.0@, next.1@) == (ReaderView {
                stage: StageView::Parsing,
                awaiters: awaiters@,
            }).on_message(message@),
    {
        match message {
            RawJsonRpc::Call { id: None, method, params } => (
                Reader { stage: Stage::Idle, awaiters },
                ReaderAction::Notification { method, params },
            ),
            RawJsonRpc::Result { id, result } => (
                Reader {
                    stage: Stage::Draining(id, RawJsonRpc::Result { id, result }),
                    awaiters,
                },
                ReaderAction::DrainControls,
            ),
            RawJsonRpc::Error { id: Some(id), error } => (
                Reader {
                    stage: Stage::Draining(id, RawJsonRpc::Error { id: Some(id), error }),
                    awaiters,
                },
                ReaderAction::DrainControls,
            ),
            message => (
                Reader { stage: Stage::Idle, awaiters },
                ReaderAction::Unhandled(message),
            ),
        }
    }

    /// Takes what the callers said, and hands a response on.
    fn on_response(
        awaiters: BTreeMap<u64, T>,
        id: u64,
        message: RawJsonRpc,
        controls: Vec<ReaderControl<T>>,
    ) -> (next: (Reader<T>, ReaderAction<T>))
        requires
            responds_to(message@) == Some(id),
        ensures
            (next.0@, next.1@) == (ReaderView {
                stage: StageView::Draining(id, message@),
                awaiters: awaiters@,
            }).on_response(id, message@, controls@),
    {
        let mut awaiters = awaiters;
        register(&mut awaiters, controls);
        match awaiters.remove(&id) {
            Some(awaiter) => (
                Reader { stage: Stage::Idle, awaiters },
                ReaderAction::Deliver(awaiter, message.unwrap_into_result()),
            ),
            None => (
                Reader { stage: Stage::Idle, awaiters },
                ReaderAction::NoAwaiter(id, message),
            ),
        }
    }
}

/// Notes who waits for which id.
fn register<T>(awaiters: &mut BTreeMap<u64, T>, controls: Vec<ReaderControl<T>>)
    ensures
        final(awaiters)@ == registered(old(awaiters)@, controls@),
{
    let ghost before = awaiters@;
    for control in it: controls.into_iter()
        invariant
            it.seq() == controls@,
            awaiters@ == registered(before, controls@.take(it.index() as int)),
    {
        assert(controls@.take(it.index() + 1).drop_last() =~= controls@.take(it.index() as int));
        match control {
            ReaderControl::Await(id, awaiter) => {
                awaiters.insert(id, awaiter);
            },
        }
    }
    assert(controls@.take(controls@.len() as int) =~= controls@);
}

/// Whether an event answers an action.
pub open spec fn answers<T>(event: EventView<T>, action: ActionView<T>) -> bool {
    match action {
        ActionView::ReadLine => event is Line,
        ActionView::ReadExact(len) => event matches EventView::Bytes(bytes) && bytes.len() == len,
        ActionView::Parse(_) => event is Parsed,
        ActionView::DrainControls => event is Controls,
        ActionView::Notification { .. } => event is Ready,
        ActionView::Deliver(_, _) => event is Ready,
        ActionView::NoAwaiter(_, _) => event is Ready,
        ActionView::Unhandled(_) => event is Ready,
        ActionView::Fail(_) => false,
    }
}

/// The reader can always take what answers its last action.
pub proof fn law_answers_are_expected<T>(
    reader: ReaderView<T>,
    event: EventView<T>,
    answer: EventView<T>,
)
    requires
        reader.expects(event),
        answers(answer, reader.step(event).1),
    ensures
        reader.step(event).0.expects(answer),
{
}

/// Nobody is forgotten, and nobody is noted, but when a response is handed on.
pub proof fn law_awaiters_are_kept<T>(reader: ReaderView<T>, event: EventView<T>)
    requires
        reader.expects(event),
        !(reader.stage is Draining),
    ensures
        reader.step(event).0.awaiters == reader.awaiters,
{
}

/// What the callers say about other ids does not change who waits for an id.
pub proof fn law_other_ids_are_kept<T>(
    awaiters: Map<u64, T>,
    controls: Seq<ReaderControl<T>>,
    id: u64,
)
    requires
        forall|i: int| 0 <= i < controls.len() ==> (#[trigger] controls[i])->Await_0 != id,
    ensures
        registered(awaiters, controls).contains_key(id) == awaiters.contains_key(id),
        awaiters.contains_key(id) ==> registered(awaiters, controls)[id] == awaiters[id],
    decreases controls.len(),
{
    if controls.len() > 0 {
        let before = controls.drop_last();
        assert forall|i: int| 0 <= i < before.len() implies (#[trigger] before[i])->Await_0
            != id by {
            assert(before[i] == controls[i]);
        }
        law_other_ids_are_kept(awaiters, before, id);
        assert(controls.last() == controls[controls.len() - 1]);
    }
}

/// The last that the callers say about an id counts.
pub proof fn law_last_awaiter_counts<T>(
    awaiters: Map<u64, T>,
    controls: Seq<ReaderControl<T>>,
    n: int,
)
    requires
        0 <= n < controls.len(),
        forall|i: int|
            n < i < controls.len() ==> (#[trigger] controls[i])->Await_0 != controls[n]->Await_0,
    ensures
        registered(awaiters, controls).contains_key(controls[n]->Await_0),
        registered(awaiters, controls)[controls[n]->Await_0] == controls[n]->Await_1,
    decreases controls.len(),
{
    if n < controls.len() - 1 {
        let before = controls.drop_last();
        assert forall|i: int| n < i < before.len() implies (#[trigger] before[i])->Await_0
            != before[n]->Await_0 by {
            assert(before[i] == controls[i]);
        }
        law_last_awaiter_counts(awaiters, before, n);
        assert(controls.last() == controls[controls.len() - 1]);
    }
}

/// The reader reads a stream frame by frame. Between two messages it reads a line, another line
/// and as many bytes as the first line announces; these are the first message in the stream, and
/// what follows is left for the next.
pub proof fn law_reader_reads_frames<T>(reader: ReaderView<T>, stream: Seq<u8>)
    requires
        reader.stage is Idle,
        read_frame(stream) is Some,
    ensures
        ({
            let (message, rest) = read_frame(stream)->0;
            let header = first_line(stream);
            let behind_header = stream.skip(header.len() as int);
            let separator = first_line(behind_header);
            let behind_separator = behind_header.skip(separator.len() as int);
            let (reading, ask_header) = reader.step(EventView::Ready);
            let (announced, ask_separator) = reading.step(
                EventView::Line(decode_utf8(header)),
            );
            let (ready, ask_body) = announced.step(
                EventView::Line(decode_utf8(separator)),
            );
            let (full, ask_parse) = ready.step(EventView::Bytes(message));
            &&& ask_header == ActionView::<T>::ReadLine
            &&& ask_separator == ActionView::<T>::ReadLine
            &&& ask_body == ActionView::<T>::ReadExact(message.len() as usize)
            &&& behind_separator == message + rest
            &&& ask_parse == ActionView::<T>::Parse(message)
            &&& full == reader.at(StageView::Parsing)
        }),
{
    let (message, rest) = read_frame(stream)->0;
    let header = first_line(stream);
    let behind_header = stream.skip(header.len() as int);
    let separator = first_line(behind_header);
    let body = stream.skip((header.len() + separator.len()) as int);
    lemma_first_line_is_a_prefix(stream);
    lemma_first_line_is_a_prefix(behind_header);
    assert(behind_header.skip(separator.len() as int) =~= body);
    assert(message + rest =~= body);
}

/// A message that the writer writes is the message that the reader takes, once the bytes of its
/// frame are read and parsed as the value that was written.
pub proof fn law_written_message_is_taken<T>(
    writer: WriterView,
    reader: ReaderView<T>,
    message: MessageView,
)
    requires
        !writer.stopped,
        carries_a_value(message),
        reader.stage is Parsing,
    ensures
        ({
            let control = WriterControlView::Write(message);
            &&& writer.step(Some(control)).1 matches WriterActionView::Send(json)
            &&& reader.step(EventView::Parsed(Some(json))) == reader.on_message(message)
        }),
{
    law_message_reads_back(message);
}

/// At the end of the stream, where the line that is read is empty, the reader stops.
pub proof fn law_reader_stops_at_the_end<T>(reader: ReaderView<T>)
    requires
        reader.stage is Header,
    ensures
        reader.step(EventView::Line(Seq::empty())) == (
            reader.at(StageView::Failed),
            ActionView::<T>::Fail(ReaderError::ContentLength),
        ),
        forall|event: EventView<T>| !reader.at(StageView::Failed).expects(event),
{
    reveal_strlit("Content-Length: ");
    assert(trimmed_end(Seq::empty()) == Seq::<char>::empty());
}

/// The response to a request, in whatever JSON it can be read from, goes to whoever waits for it,
/// with what it says. Then nobody waits for that id, and everybody else still waits.
pub proof fn law_response_reaches_its_awaiter<T>(
    reader: ReaderView<T>,
    json: JsonView,
    message: MessageView,
    controls: Seq<ReaderControl<T>>,
    id: u64,
)
    requires
        reader.stage is Parsing,
        message_from(json) == Some(message),
        responds_to(message) == Some(id),
        registered(reader.awaiters, controls).contains_key(id),
    ensures
        ({
            let awaiters = registered(reader.awaiters, controls);
            let (draining, ask) = reader.step(EventView::Parsed(Some(json)));
            let (after, deliver) = draining.step(EventView::Controls(controls));
            &&& ask == ActionView::<T>::DrainControls
            &&& deliver == ActionView::Deliver(awaiters[id], outcome_of(message))
            &&& after.stage is Idle
            &&& !after.awaiters.contains_key(id)
            &&& forall|other: u64| other != id ==> {
                &&& #[trigger] after.awaiters.contains_key(other) == awaiters.contains_key(other)
                &&& awaiters.contains_key(other) ==> after.awaiters[other] == awaiters[other]
            }
        }),
{
}

/// A response is delivered once: where nobody waits for its id and nobody asks anew, it goes to
/// nobody, and everybody still waits.
pub proof fn law_response_without_awaiter_goes_nowhere<T>(
    reader: ReaderView<T>,
    json: JsonView,
    message: MessageView,
    controls: Seq<ReaderControl<T>>,
    id: u64,
)
    requires
        reader.stage is Parsing,
        message_from(json) == Some(message),
        responds_to(message) == Some(id),
        !reader.awaiters.contains_key(id),
        forall|i: int| 0 <= i < controls.len() ==> (#[trigger] controls[i])->Await_0 != id,
    ensures
        ({
            let draining = reader.step(EventView::Parsed(Some(json))).0;
            draining.step(EventView::Controls(controls)) == (
                ReaderView {
                    stage: StageView::Idle,
                    awaiters: registered(reader.awaiters, controls),
                },
                ActionView::<T>::NoAwaiter(id, message),
            )
        }),
{
    law_other_ids_are_kept(reader.awaiters, controls, id);
}

/// A message that responds to nothing reaches no awaiter: a notification is announced, and a
/// request of the server or an error without an id is put aside.
pub proof fn law_other_messages_reach_no_awaiter<T>(
    reader: ReaderView<T>,
    json: JsonView,
    message: MessageView,
)
    requires
        reader.stage is Parsing,
        message_from(json) == Some(message),
        responds_to(message) is None,
    ensures
        ({
            let (after, action) = reader.step(EventView::Parsed(Some(json)));
            &&& after == reader.at(StageView::Idle)
            &&& match message {
                MessageView::Call { id: None, method, params } => action
                    == ActionView::<T>::Notification { method, params },
                _ => action == ActionView::<T>::Unhandled(message),
            }
        }),
{
}

/// Every result responds to its own id, and so does every error that has one. A call, or an error
/// without an id, responds to nothing.
pub proof fn law_responses_name_their_requests(
    id: u64,
    maybe: Option<u64>,
    method: Seq<char>,
    carried: JsonView,
    error: RpcErrorView,
)
    ensures
        responds_to(MessageView::Result { id, result: carried }) == Some(id),
        responds_to(MessageView::Error { id: Some(id), error }) == Some(id),
        responds_to(MessageView::Error { id: None, error }) is None,
        responds_to(MessageView::Call { id: maybe, method, params: carried }) is None,
{
}

/// A result says what it carries, and an error what it reports.
pub proof fn law_responses_say_what_they_carry(
    id: u64,
    maybe: Option<u64>,
    result: JsonView,
    error: RpcErrorView,
)
    ensures
        outcome_of(MessageView::Result { id, result }) == Ok::<JsonView, RpcErrorView>(result),
        outcome_of(MessageView::Error { id: maybe, error }) == Err::<JsonView, RpcErrorView>(error),
{
}

/// Which event the reader can take at which stage.
pub proof fn law_each_stage_expects_its_event<T>(
    reader: ReaderView<T>,
    line: Seq<char>,
    bytes: Seq<u8>,
    json: Option<JsonView>,
    controls: Seq<ReaderControl<T>>,
)
    ensures
        reader.expects(EventView::Ready) <==> reader.stage is Idle,
        reader.expects(EventView::Line(line)) <==> reader.stage is Header
            || reader.stage is Separator,
        reader.expects(EventView::Bytes(bytes)) <==> reader.stage is Body,
        reader.expects(EventView::Parsed(json)) <==> reader.stage is Parsing,
        reader.expects(EventView::Controls(controls)) <==> reader.stage is Draining,
{
}

/// Between two messages the reader asks for a header line. It goes on exactly where the line
/// announces a number of bytes, with the line behind it, whatever that is, and then with that many
/// bytes. All the while everybody still waits.
pub proof fn law_announced_bytes_are_read<T>(
    awaiters: Map<u64, T>,
    line: Seq<char>,
    separator: Seq<char>,
    bytes: Seq<u8>,
    len: usize,
)
    ensures
        (ReaderView { stage: StageView::Idle, awaiters }).step(EventView::Ready) == (
            ReaderView { stage: StageView::Header, awaiters },
            ActionView::<T>::ReadLine,
        ),
        content_length(line) is None ==> (ReaderView { stage: StageView::Header, awaiters }).step(
            EventView::Line(line),
        ) == (
            ReaderView { stage: StageView::Failed, awaiters },
            ActionView::<T>::Fail(ReaderError::ContentLength),
        ),
        content_length(line) == Some(len) ==> (ReaderView {
            stage: StageView::Header,
            awaiters,
        }).step(EventView::Line(line)) == (
            ReaderView { stage: StageView::Separator(len), awaiters },
            ActionView::<T>::ReadLine,
        ),
        (ReaderView { stage: StageView::Separator(len), awaiters }).step(
            EventView::Line(separator),
        ) == (
            ReaderView { stage: StageView::Body, awaiters },
            ActionView::<T>::ReadExact(len),
        ),
        (ReaderView { stage: StageView::Body, awaiters }).step(EventView::Bytes(bytes)) == (
            ReaderView { stage: StageView::Parsing, awaiters },
            ActionView::<T>::Parse(bytes),
        ),
{
}

/// The reader stops exactly at what is no message.
pub proof fn law_reader_stops_at_what_is_no_message<T>(
    reader: ReaderView<T>,
    json: Option<JsonView>,
)
    requires
        reader.stage is Parsing,
    ensures
        reader.step(EventView::Parsed(json)).0.stage is Failed <==> !(json matches Some(tree)
            && message_from(tree) is Some),
        !(json matches Some(tree) && message_from(tree) is Some) ==> reader.step(
            EventView::Parsed(json),
        ) == (
            ReaderView { stage: StageView::Failed, awaiters: reader.awaiters },
            ActionView::<T>::Fail(ReaderError::Message),
        ),
{
}

/// The reader handles each kind of message in its way: a notification is announced with its method
/// and its parameters; for a result, or an error with an id, the callers are heard; a request of the
/// server, or an error without an id, is put aside. Everybody still waits.
pub proof fn law_each_kind_of_message_is_handled<T>(
    reader: ReaderView<T>,
    json: JsonView,
    message: MessageView,
)
    requires
        reader.stage is Parsing,
        message_from(json) == Some(message),
    ensures
        ({
            let (after, action) = reader.step(EventView::Parsed(Some(json)));
            let awaiters = reader.awaiters;
            match message {
                MessageView::Call { id: None, method, params } => {
                    &&& after == (ReaderView { stage: StageView::Idle, awaiters })
                    &&& action == ActionView::<T>::Notification { method, params }
                },
                MessageView::Call { id: Some(_), .. } => {
                    &&& after == (ReaderView { stage: StageView::Idle, awaiters })
                    &&& action == ActionView::<T>::Unhandled(message)
                },
                MessageView::Result { id, .. } => {
                    &&& after == (ReaderView { stage: StageView::Draining(id, message), awaiters })
                    &&& action == ActionView::<T>::DrainControls
                },
                MessageView::Error { id: Some(id), .. } => {
                    &&& after == (ReaderView { stage: StageView::Draining(id, message), awaiters })
                    &&& action == ActionView::<T>::DrainControls
                },
                MessageView::Error { id: None, .. } => {
                    &&& after == (ReaderView { stage: StageView::Idle, awaiters })
                    &&& action == ActionView::<T>::Unhandled(message)
                },
            }
        }),
{
}

/// Every result goes to whoever waits for its id, with all that it carries, and so does every error
/// with an id. Then nobody waits for that id, and everybody else still waits.
pub proof fn law_every_response_is_delivered<T>(
    reader: ReaderView<T>,
    json: JsonView,
    controls: Seq<ReaderControl<T>>,
    id: u64,
    result: JsonView,
    error: RpcErrorView,
)
    requires
        reader.stage is Parsing,
        registered(reader.awaiters, controls).contains_key(id),
    ensures
        ({
            let waiting = registered(reader.awaiters, controls);
            let draining = reader.step(EventView::Parsed(Some(json))).0;
            let (after, deliver) = draining.step(EventView::Controls(controls));
            &&& message_from(json) == Some(MessageView::Result { id, result }) ==> deliver
                == ActionView::Deliver(waiting[id], Ok(result))
            &&& message_from(json) == Some(MessageView::Error { id: Some(id), error }) ==> deliver
                == ActionView::Deliver(waiting[id], Err(error))
            &&& (message_from(json) == Some(MessageView::Result { id, result }) || message_from(
                json,
            ) == Some(MessageView::Error { id: Some(id), error })) ==> after == (ReaderView {
                stage: StageView::Idle,
                awaiters: waiting.remove(id),
            })
        }),
{
}

/// A response for which nobody waits goes to nobody: the reader says so, with its id, and everybody
/// still waits.
pub proof fn law_unclaimed_responses_are_reported<T>(
    awaiters: Map<u64, T>,
    id: u64,
    message: MessageView,
    controls: Seq<ReaderControl<T>>,
)
    requires
        !registered(awaiters, controls).contains_key(id),
    ensures
        (ReaderView { stage: StageView::Draining(id, message), awaiters }).step(
            EventView::Controls(controls),
        ) == (
            ReaderView { stage: StageView::Idle, awaiters: registered(awaiters, controls) },
            ActionView::<T>::NoAwaiter(id, message),
        ),
{
}

/// What events are viewed as.
pub proof fn law_events_are_viewed<T>(
    line: String,
    bytes: Vec<u8>,
    json: Json,
    controls: Vec<ReaderControl<T>>,
)
    ensures
        ReaderEvent::<T>::Ready@ == EventView::<T>::Ready,
        ReaderEvent::<T>::Line(line)@ == EventView::<T>::Line(line@),
        ReaderEvent::<T>::Bytes(bytes)@ == EventView::<T>::Bytes(bytes@),
        ReaderEvent::<T>::Parsed(Some(json))@ == EventView::<T>::Parsed(Some(json@)),
        ReaderEvent::<T>::Parsed(None)@ == EventView::<T>::Parsed(None),
        ReaderEvent::Controls(controls)@ == EventView::Controls(controls@),
{
}

/// What actions are viewed as.
pub proof fn law_actions_are_viewed<T>(
    len: usize,
    bytes: Vec<u8>,
    method: String,
    params: Json,
    awaiter: T,
    result: Json,
    failure: RpcError,
    id: u64,
    message: RawJsonRpc,
    error: ReaderError,
)
    ensures
        ReaderAction::<T>::ReadLine@ == ActionView::<T>::ReadLine,
        ReaderAction::<T>::ReadExact(len)@ == ActionView::<T>::ReadExact(len),
        ReaderAction::<T>::Parse(bytes)@ == ActionView::<T>::Parse(bytes@),
        ReaderAction::<T>::DrainControls@ == ActionView::<T>::DrainControls,
        (ReaderAction::<T>::Notification { method, params })@ == (ActionView::<T>::Notification {
            method: method@,
            params: params@,
        }),
        ReaderAction::Deliver(awaiter, Ok(result))@ == ActionView::Deliver(awaiter, Ok(result@)),
        ReaderAction::Deliver(awaiter, Err(failure))@ == ActionView::Deliver(
            awaiter,
            Err(failure@),
        ),
        ReaderAction::<T>::NoAwaiter(id, message)@ == ActionView::<T>::NoAwaiter(id, message@),
        ReaderAction::<T>::Unhandled(message)@ == ActionView::<T>::Unhandled(message@),
        ReaderAction::<T>::Fail(error)@ == ActionView::<T>::Fail(error),
{
}

} // verus!
