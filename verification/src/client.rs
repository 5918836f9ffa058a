//! The client of a language server.
//!
//! A client does no input or output: it says what to post to the reader and to the writer, in
//! which order, and takes the outcome.

use vstd::prelude::*;

use crate::json::{Json, JsonView};
#[allow(unused_imports)]
use crate::json::value_of;
use crate::message::{MessageView, RawJsonRpc, RpcError};
#[allow(unused_imports)]
use crate::message::message_from;
use crate::reader::{ActionView, EventView, ReaderControl, ReaderView, StageView};
#[allow(unused_imports)]
use crate::reader::{
    law_response_reaches_its_awaiter, outcome_of, registered, responds_to,
};
use crate::writer::{WriterControl, WriterControlView};

verus! {

/// An error of the input and output underneath.
#[verifier::external_type_specification]
#[verifier::external_body]
pub struct ExIoError(std::io::Error);

/// Why a call has no result.
#[derive(Debug)]
pub enum CallError {
    /// The server reports an error.
    RpcError(RpcError),
    /// The server cannot be reached.
    IoError(std::io::Error),
}

/// What a client hands over.
pub enum Posting<T> {
    /// To the reader.
    Reader(ReaderControl<T>),
    /// To the writer.
    Writer(WriterControl),
}

/// What a [`Posting`] stands for.
pub enum PostingView<T> {
    Reader(ReaderControl<T>),
    Writer(WriterControlView),
}

impl<T> View for Posting<T> {
    type V = PostingView<T>;

    open spec fn view(&self) -> PostingView<T> {
        match self {
            Posting::Reader(control) => PostingView::Reader(*control),
            Posting::Writer(control) => PostingView::Writer(control@),
        }
    }
}

/// What postings in a row stand for.
pub open spec fn postings_view<T>(postings: Seq<Posting<T>>) -> Seq<PostingView<T>> {
    postings.map_values(|posting: Posting<T>| posting@)
}

/// The client of a language server.
pub struct LsClient {
    request_counter: u64,
    pid: u32,
}

/// What an [`LsClient`] stands for: the id of the next request, and the process of the server.
pub struct ClientView {
    pub next_id: u64,
    pub pid: u32,
}

impl View for LsClient {
    type V = ClientView;

    closed spec fn view(&self) -> ClientView {
        ClientView { next_id: self.request_counter, pid: self.pid }
    }
}

/// The id behind an id. The ids start over behind the last.
pub open spec fn id_after(id: u64) -> u64 {
    if id == u64::MAX {
        0
    } else {
        (id + 1) as u64
    }
}

impl ClientView {
    /// The client once it has given an id away.
    pub open spec fn advanced(self) -> ClientView {
        ClientView { next_id: id_after(self.next_id), pid: self.pid }
    }
}

/// What a request posts: first that its response is awaited, then the request. So no response can
/// come before its awaiter.
pub open spec fn call_postings<T>(
    id: u64,
    method: Seq<char>,
    params: JsonView,
    awaiter: T,
) -> Seq<PostingView<T>> {
    seq![
        PostingView::Reader(ReaderControl::Await(id, awaiter)),
        PostingView::Writer(
            WriterControlView::Write(MessageView::Call { id: Some(id), method, params }),
        ),
    ]
}

impl LsClient {
    /// The client of the server that runs as the process `pid`. It begins with the request to
    /// initialize.
    pub fn start<T>(pid: u32, params: Json, awaiter: T) -> (started: (LsClient, Vec<Posting<T>>))
        ensures
            started.0@ == (ClientView { next_id: 1, pid }),
            postings_view(started.1@) == call_postings(
                0,
                "initialize"@,
                value_of(params@),
                awaiter,
            ),
            started.1@.len() == 2,
            started.1@[0] == Posting::Reader(ReaderControl::Await(0, awaiter)),
            started.1@[1] matches Posting::Writer(WriterControl::Write(request)) && request@ == (
            MessageView::Call { id: Some(0), method: "initialize"@, params: value_of(params@) }),
    {
        let mut client = LsClient { request_counter: 0, pid };
        let postings = client.call("initialize", params, awaiter);
        (client, postings)
    }

    /// Takes the outcome of the request to initialize, and notifies the server that the client is
    /// initialized.
    pub fn initialized(&self, outcome: Result<Json, RpcError>, params: Json) -> (notice: Result<
        WriterControl,
        CallError,
    >)
        ensures
            match outcome {
                Ok(_) => notice matches Ok(control) && control@ == WriterControlView::Write(
                    MessageView::Call {
                        id: None,
                        method: "initialized"@,
                        params: value_of(params@),
                    },
                ),
                Err(error) => notice == Err::<WriterControl, CallError>(CallError::RpcError(error)),
            },
    {
        match LsClient::finish(outcome) {
            Ok(_) => Ok(self.notify("initialized", params)),
            Err(error) => Err(error),
        }
    }

    /// Makes a request, with the value that the tree stands for. The outcome goes to the awaiter, and then to [`LsClient::finish`].
    pub fn call<T>(&mut self, method: &str, params: Json, awaiter: T) -> (postings: Vec<Posting<T>>)
        ensures
            final(self)@ == old(self)@.advanced(),
            postings_view(postings@) == call_postings(
                old(self)@.next_id,
                method@,
                value_of(params@),
                awaiter,
            ),
            final(self)@.next_id == (old(self)@.next_id + 1) % (u64::MAX + 1),
            final(self)@.pid == old(self)@.pid,
            postings@.len() == 2,
            postings@[0] == Posting::Reader(ReaderControl::Await(old(self)@.next_id, awaiter)),
            postings@[1] matches Posting::Writer(WriterControl::Write(request)) && request@ == (
            MessageView::Call {
                id: Some(old(self)@.next_id),
                method: method@,
                params: value_of(params@),
            }),
    {
        let id = self.next_request_id();
        let request = RawJsonRpc::request(id, method, params);
        let mut postings: Vec<Posting<T>> = Vec::new();
        postings.push(Posting::Reader(ReaderControl::Await(id, awaiter)));
        postings.push(Posting::Writer(WriterControl::Write(request)));
        assert(postings_view(postings@) =~= call_postings(
            old(self)@.next_id,
            method@,
            value_of(params@),
            awaiter,
        ));
        postings
    }

    /// What the caller of a request gets.
    pub fn finish(outcome: Result<Json, RpcError>) -> (result: Result<Json, CallError>)
        ensures
            match outcome {
                Ok(value) => result == Ok::<Json, CallError>(value),
                Err(error) => result == Err::<Json, CallError>(CallError::RpcError(error)),
            },
    {
        match outcome {
            Ok(value) => Ok(value),
            Err(error) => Err(CallError::RpcError(error)),
        }
    }

    /// Notifies the server, with the value that the tree stands for.
    pub fn notify(&self, method: &str, params: Json) -> (control: WriterControl)
        ensures
            control@ == WriterControlView::Write(
                MessageView::Call { id: None, method: method@, params: value_of(params@) },
            ),
    {
        WriterControl::Write(RawJsonRpc::notification(method, params))
    }

    /// The process of the server.
    pub fn pid(&self) -> (pid: u32)
        ensures
            pid == self@.pid,
    {
        self.pid
    }

    /// Gives away the id of the next request.
    pub fn next_request_id(&mut self) -> (id: u64)
        ensures
            id == old(self)@.next_id,
            final(self)@ == old(self)@.advanced(),
            final(self)@.next_id == (old(self)@.next_id + 1) % (u64::MAX + 1),
            final(self)@.pid == old(self)@.pid,
    {
        let id = self.request_counter;
        self.request_counter = id.wrapping_add(1);
        id
    }
}

/// The client once it has given `n` ids away.
pub open spec fn after_ids(client: ClientView, n: nat) -> ClientView
    decreases n,
{
    if n == 0 {
        client
    } else {
        after_ids(client, (n - 1) as nat).advanced()
    }
}

/// The ids that are given away count up from the next, and start over behind the last.
pub proof fn law_ids_count_up(client: ClientView, n: nat)
    ensures
        after_ids(client, n).next_id == (client.next_id + n) % (u64::MAX + 1),
        after_ids(client, n).pid == client.pid,
    decreases n,
{
    if n > 0 {
        law_ids_count_up(client, (n - 1) as nat);
        let m: int = u64::MAX + 1;
        let x: int = client.next_id + n - 1;
        assert((x + 1) % m == if x % m == m - 1 {
            0
        } else {
            x % m + 1
        }) by (nonlinear_arith)
            requires
                m == u64::MAX + 1,
        ;
    }
}

/// No two requests have the same id, unless all the ids were given away in between.
pub proof fn law_ids_differ(client: ClientView, i: nat, j: nat)
    requires
        i < j,
        j - i <= u64::MAX,
    ensures
        after_ids(client, i).next_id != after_ids(client, j).next_id,
{
    law_ids_count_up(client, i);
    law_ids_count_up(client, j);
    let m: int = u64::MAX + 1;
    let a: int = client.next_id + i;
    let b: int = client.next_id + j;
    assert(a % m != b % m) by (nonlinear_arith)
        requires
            0 < b - a < m,
            m == u64::MAX + 1,
    ;
}

/// A request of a client: the one that gets the id behind the first `number` that the client gives
/// away.
pub struct Call<T> {
    pub number: nat,
    pub method: Seq<char>,
    pub params: JsonView,
    pub awaiter: T,
}

impl<T> Call<T> {
    /// The id of the request.
    pub open spec fn id(self, client: ClientView) -> u64 {
        after_ids(client, self.number).next_id
    }

    /// What the request posts.
    pub open spec fn postings(self, client: ClientView) -> Seq<PostingView<T>> {
        call_postings(self.id(client), self.method, self.params, self.awaiter)
    }
}

/// What happens in a connection. The callers run side by side, so what one of them posts can come
/// between what another posts.
pub enum Happening<T> {
    /// The first posting of a request is posted: its response is awaited.
    Awaits(Call<T>),
    /// The second posting of a request is posted: it is written.
    Writes(Call<T>),
    /// The reader takes a value.
    Comes(JsonView),
}

/// What the reader knows: who waits for which id, and what was posted that it has not heard yet.
#[verifier::reject_recursive_types(T)]
pub struct Connection<T> {
    pub awaiters: Map<u64, T>,
    pub unheard: Seq<ReaderControl<T>>,
}

impl<T> Connection<T> {
    /// The connection once something is posted. The writer's part is nothing to the reader.
    pub open spec fn posted(self, posting: PostingView<T>) -> Connection<T> {
        match posting {
            PostingView::Reader(control) => Connection {
                awaiters: self.awaiters,
                unheard: self.unheard.push(control),
            },
            PostingView::Writer(_) => self,
        }
    }

    /// The connection once the reader has taken a value, and what the reader does last. Where it
    /// listens to the callers, it hears all that they have posted.
    pub open spec fn took(self, json: JsonView) -> (Connection<T>, ActionView<T>) {
        let parsing = ReaderView { stage: StageView::Parsing, awaiters: self.awaiters };
        let (next, action) = parsing.step(EventView::Parsed(Some(json)));
        if action is DrainControls {
            let (after, deliver) = next.step(EventView::Controls(self.unheard));
            (Connection { awaiters: after.awaiters, unheard: Seq::empty() }, deliver)
        } else {
            (Connection { awaiters: next.awaiters, unheard: self.unheard }, action)
        }
    }

    /// Who waits for which id once the reader hears all that was posted.
    pub open spec fn waiting(self) -> Map<u64, T> {
        registered(self.awaiters, self.unheard)
    }
}

/// The connection after what happened in a row. At first nobody waits.
pub open spec fn connection_after<T>(
    client: ClientView,
    history: Seq<Happening<T>>,
) -> Connection<T>
    decreases history.len(),
{
    if history.len() == 0 {
        Connection { awaiters: Map::empty(), unheard: Seq::empty() }
    } else {
        let before = connection_after(client, history.drop_last());
        match history.last() {
            Happening::Awaits(call) => before.posted(call.postings(client)[0]),
            Happening::Writes(call) => before.posted(call.postings(client)[1]),
            Happening::Comes(json) => before.took(json).0,
        }
    }
}

/// Whether each request is made once, and no id comes again: not all the ids are given away between
/// two requests.
pub open spec fn numbered<T>(history: Seq<Happening<T>>) -> bool {
    forall|x: int, y: int|
        0 <= x < y < history.len() ==> ((#[trigger] history[x]) matches Happening::Awaits(a)
            ==> ((#[trigger] history[y]) matches Happening::Awaits(b) ==> {
            &&& a.number != b.number
            &&& -u64::MAX <= a.number - b.number <= u64::MAX
        }))
}

/// Whether what happens is that the response to the request with this id comes.
pub open spec fn answers_to<T>(happening: Happening<T>, id: u64) -> bool {
    &&& happening matches Happening::Comes(json)
    &&& message_from(json) matches Some(message)
    &&& responds_to(message) == Some(id)
}

/// Whether what happens can be followed by anything: the reader stops at a value that is no
/// message.
pub open spec fn goes_on<T>(happening: Happening<T>) -> bool {
    happening matches Happening::Comes(json) ==> message_from(json) is Some
}

/// A request and its response: when it is awaited, written and answered, and with which message.
pub struct Exchange<T> {
    pub call: Call<T>,
    pub awaited: int,
    pub written: int,
    pub answered: int,
    pub response: MessageView,
}

impl<T> Exchange<T> {
    /// Whether the request and its response are part of what happened: the postings come in their
    /// order, the server answers what was written, and the response is the first to the id since.
    pub open spec fn took_place(self, client: ClientView, history: Seq<Happening<T>>) -> bool {
        &&& 0 <= self.awaited < self.written < self.answered < history.len()
        &&& history[self.awaited] == Happening::Awaits(self.call)
        &&& history[self.written] == Happening::Writes(self.call)
        &&& history[self.answered] is Comes
        &&& message_from(history[self.answered]->Comes_0) == Some(self.response)
        &&& responds_to(self.response) == Some(self.call.id(client))
        &&& forall|x: int|
            self.awaited < x < self.answered ==> !answers_to(
                #[trigger] history[x],
                self.call.id(client),
            )
        &&& forall|x: int| 0 <= x < self.answered ==> goes_on(#[trigger] history[x])
    }

    /// What the reader does with the response.
    pub open spec fn action(self, client: ClientView, history: Seq<Happening<T>>) -> ActionView<T> {
        connection_after(client, history.take(self.answered)).took(
            history[self.answered]->Comes_0,
        ).1
    }
}

/// Who waits for a response goes on waiting while anything else happens.
proof fn lemma_awaiter_waits<T>(
    client: ClientView,
    history: Seq<Happening<T>>,
    awaited: int,
    call: Call<T>,
)
    requires
        numbered(history),
        0 <= awaited < history.len(),
        history[awaited] == Happening::Awaits(call),
        forall|x: int|
            awaited < x < history.len() ==> !answers_to(#[trigger] history[x], call.id(client)),
    ensures
        ({
            let waiting = connection_after(client, history).waiting();
            waiting.contains_key(call.id(client)) && waiting[call.id(client)] == call.awaiter
        }),
    decreases history.len(),
{
    let earlier = history.drop_last();
    let before = connection_after(client, earlier);
    let last = history.len() - 1;
    assert(forall|x: int| 0 <= x < last ==> earlier[x] == history[x]);
    assert(history.last() == history[last]);
    if let Happening::Awaits(other) = history.last() {
        let control = ReaderControl::Await(other.id(client), other.awaiter);
        assert(other.postings(client)[0] == PostingView::Reader(control));
        assert(before.unheard.push(control).drop_last() =~= before.unheard);
        assert(connection_after(client, history).waiting() == before.waiting().insert(
            other.id(client),
            other.awaiter,
        ));
        if awaited < last {
            lemma_calls_differ(client, history, awaited, last);
        }
    }
    if awaited < last {
        assert(numbered(earlier));
        lemma_awaiter_waits(client, earlier, awaited, call);
        if let Happening::Comes(json) = history.last() {
            assert(!answers_to(history[last], call.id(client)));
        }
    }
}

/// Two requests that are made have different ids.
proof fn lemma_calls_differ<T>(client: ClientView, history: Seq<Happening<T>>, x: int, y: int)
    requires
        numbered(history),
        0 <= x < history.len(),
        0 <= y < history.len(),
        x != y,
        history[x] is Awaits,
        history[y] is Awaits,
    ensures
        history[x]->Awaits_0.id(client) != history[y]->Awaits_0.id(client),
{
    let m = history[x]->Awaits_0.number;
    let n = history[y]->Awaits_0.number;
    if x > y {
        assert(history[y] is Awaits && history[x] is Awaits);
    }
    if m < n {
        law_ids_differ(client, m, n);
    } else {
        law_ids_differ(client, n, m);
    }
}

/// A request gets its own response. Whatever else happens (other requests and their responses,
/// notifications, requests of the server, errors without an id), the first response to its id goes
/// to its awaiter, in whatever JSON it can be read from.
pub proof fn law_call_gets_its_response<T>(
    client: ClientView,
    history: Seq<Happening<T>>,
    exchange: Exchange<T>,
)
    requires
        numbered(history),
        exchange.took_place(client, history),
    ensures
        exchange.action(client, history) == ActionView::Deliver(
            exchange.call.awaiter,
            outcome_of(exchange.response),
        ),
{
    let Exchange { call, awaited, answered, response, .. } = exchange;
    let earlier = history.take(answered);
    let before = connection_after(client, earlier);
    let parsing = ReaderView { stage: StageView::Parsing, awaiters: before.awaiters };
    assert(forall|x: int| 0 <= x < answered ==> earlier[x] == history[x]);
    lemma_awaiter_waits(client, earlier, awaited, call);
    law_response_reaches_its_awaiter(
        parsing,
        history[answered]->Comes_0,
        response,
        before.unheard,
        call.id(client),
    );
}

/// Two requests that are under way at the same time have different ids, and each gets its own
/// response, whatever the order in which they are posted and answered.
pub proof fn law_calls_get_their_own_responses<T>(
    client: ClientView,
    history: Seq<Happening<T>>,
    a: Exchange<T>,
    b: Exchange<T>,
)
    requires
        numbered(history),
        a.took_place(client, history),
        b.took_place(client, history),
        a.call.number != b.call.number,
    ensures
        a.call.id(client) != b.call.id(client),
        a.action(client, history) == ActionView::Deliver(a.call.awaiter, outcome_of(a.response)),
        b.action(client, history) == ActionView::Deliver(b.call.awaiter, outcome_of(b.response)),
{
    lemma_calls_differ(client, history, a.awaited, b.awaited);
    law_call_gets_its_response(client, history, a);
    law_call_gets_its_response(client, history, b);
}

/// A request posts two things: to the reader, that its awaiter waits for its id; then to the
/// writer, the request with that id, the method and the parameters that were given.
pub proof fn law_requests_are_posted_whole<T>(
    id: u64,
    method: Seq<char>,
    params: JsonView,
    awaiter: T,
)
    ensures
        call_postings(id, method, params, awaiter).len() == 2,
        call_postings(id, method, params, awaiter)[0] == PostingView::Reader(
            ReaderControl::Await(id, awaiter),
        ),
        call_postings(id, method, params, awaiter)[1] matches PostingView::Writer(
            WriterControlView::Write(request),
        ) && request == (MessageView::Call { id: Some(id), method, params }),
{
}

/// A client that gives an id away goes on with the next, which is one more, or zero behind the last.
/// It stays the client of the same process.
pub proof fn law_ids_advance_by_one(client: ClientView, n: nat)
    ensures
        client.advanced().next_id == (client.next_id + 1) % (u64::MAX + 1),
        client.advanced().pid == client.pid,
        after_ids(client, 0) == client,
        after_ids(client, n + 1) == after_ids(client, n).advanced(),
{
}

/// What postings are viewed as.
pub proof fn law_postings_are_viewed<T>(
    control: ReaderControl<T>,
    order: WriterControl,
    postings: Seq<Posting<T>>,
)
    ensures
        Posting::Reader(control)@ == PostingView::Reader(control),
        Posting::<T>::Writer(order)@ == PostingView::<T>::Writer(order@),
        postings_view(postings).len() == postings.len(),
        forall|i: int|
            0 <= i < postings.len() ==> #[trigger] postings_view(postings)[i] == postings[i]@,
{
}

/// What is posted to the reader is heard with the next response, behind what was posted before;
/// what is posted to the writer, and any value but a response, leaves it unheard.
pub proof fn law_postings_wait_for_a_response<T>(
    connection: Connection<T>,
    control: ReaderControl<T>,
    order: WriterControlView,
    json: JsonView,
    message: MessageView,
)
    requires
        message_from(json) == Some(message),
    ensures
        connection.posted(PostingView::Reader(control)) == (Connection {
            awaiters: connection.awaiters,
            unheard: connection.unheard.push(control),
        }),
        connection.posted(PostingView::Writer(order)) == connection,
        responds_to(message) is None ==> connection.took(json).0 == connection,
        responds_to(message) matches Some(id) ==> connection.took(json).0 == (Connection {
            awaiters: connection.waiting().remove(id),
            unheard: Seq::empty(),
        }),
{
    if let Some(id) = responds_to(message) {
        assert(connection.took(json).0.awaiters =~= connection.waiting().remove(id));
    }
}

} // verus!
