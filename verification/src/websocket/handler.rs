//! Feed state machine: turns parsed Coinbase WebSocket messages into domain messages.
//!
//! The surrounding event loop (channels, the socket, the clock) runs outside this module;
//! it hands each command and each received text here and acts on what comes back.

use crate::http::parse::{epoch_secs_fit, epoch_secs_in_range, is_batch_of, spec_bar_from_parts, spec_candle_parts,
    spec_parse_rfc3339, spec_side_to_aggressor, spec_trade_parts, parse_rfc3339_timestamp};
use crate::model::{
    id_key, instrument_id_from_product, instrument_id_of, price_precision_of, size_precision_of, Bar,
    BarType, InstrumentAny, InstrumentId, OrderBookDeltas, QuoteTick, TradeTick, UnixNanos,
    COINBASE,
};
use crate::string::str_eq;
use crate::websocket::messages::{
    CoinbaseWsMessage, CoinbaseWsSubscription, WsCandle, WsCandlesEvent, WsEventType,
    WsL2DataEvent, WsMarketTradesEvent, WsTicker, WsTickerEvent, WsTrade,
};
use crate::websocket::parse::{
    parse_ws_candle, parse_ws_l2_snapshot, parse_ws_l2_update, parse_ws_ticker, parse_ws_trade,
    spec_ticker_parts, spec_update_deltas, spec_ws_snapshot,
};
use ahash::AHashMap;
use vstd::prelude::*;

verus! {

#[verifier::external_type_specification]
#[verifier::external_body]
#[verifier::reject_recursive_types(K)]
#[verifier::reject_recursive_types(V)]
#[verifier::reject_recursive_types(S)]
pub struct ExAHashMap<K, V, S>(AHashMap<K, V, S>);

#[verifier::external_type_specification]
#[verifier::external_body]
pub struct ExRandomState(ahash::RandomState);

/// Instrument cache of the handler.
pub type InstrumentCache = AHashMap<InstrumentId, InstrumentAny>;

/// Bar type registry of the handler, keyed by product identifier.
pub type BarTypeRegistry = AHashMap<String, BarType>;

/// What an instrument cache holds, keyed by symbol and venue.
pub uninterp spec fn instrument_entries(m: AHashMap<InstrumentId, InstrumentAny>) -> Map<
    (Seq<char>, Seq<char>),
    InstrumentAny,
>;

/// What a bar type registry holds, keyed by product identifier.
pub uninterp spec fn bar_type_entries(m: AHashMap<String, BarType>) -> Map<Seq<char>, BarType>;

/// The empty instrument cache.
pub open spec fn no_instruments() -> Map<(Seq<char>, Seq<char>), InstrumentAny> {
    Map::empty()
}

/// The empty bar type registry.
pub open spec fn no_bar_types() -> Map<Seq<char>, BarType> {
    Map::empty()
}

/// Calls `AHashMap::new`: the map starts empty.
#[verifier::external_body]
fn new_instrument_cache() -> (m: InstrumentCache)
    ensures
        instrument_entries(m) == no_instruments(),
{
    AHashMap::new()
}

/// Calls `AHashMap::new`: the map starts empty.
#[verifier::external_body]
fn new_bar_type_registry() -> (m: BarTypeRegistry)
    ensures
        bar_type_entries(m) == no_bar_types(),
{
    AHashMap::new()
}

/// Calls `AHashMap::insert`: the entry for `key` becomes `value`, the others stay.
/// (`InstrumentId` compares and hashes by its two strings.)
#[verifier::external_body]
fn cache_instrument(m: &mut AHashMap<InstrumentId, InstrumentAny>, key: InstrumentId, value: InstrumentAny)
    ensures
        instrument_entries(*final(m)) == instrument_entries(*old(m)).insert(id_key(key), value),
{
    m.insert(key, value);
}

/// Calls `AHashMap::get`: the entry for `key`, if there is one.
#[verifier::external_body]
fn cached_instrument<'a>(m: &'a AHashMap<InstrumentId, InstrumentAny>, key: &InstrumentId) -> (r: Option<&'a InstrumentAny>)
    ensures
        instrument_entries(*m).contains_key(id_key(*key)) ==> r == Some(&instrument_entries(*m)[id_key(*key)]),
        !instrument_entries(*m).contains_key(id_key(*key)) ==> r is None,
{
    m.get(key)
}

/// Calls `AHashMap::insert`: the entry for `key` becomes `value`, the others stay.
#[verifier::external_body]
fn register_bar_type(m: &mut AHashMap<String, BarType>, key: String, value: BarType)
    ensures
        bar_type_entries(*final(m)) == bar_type_entries(*old(m)).insert(key@, value),
{
    m.insert(key, value);
}

/// Calls `AHashMap::remove`: the entry for `key` goes, the others stay.
#[verifier::external_body]
fn unregister_bar_type(m: &mut AHashMap<String, BarType>, key: &str)
    ensures
        bar_type_entries(*final(m)) == bar_type_entries(*old(m)).remove(key@),
{
    m.remove(key);
}

/// Calls `AHashMap::get`: the entry for `key`, if there is one.
#[verifier::external_body]
fn registered_bar_type<'a>(m: &'a AHashMap<String, BarType>, key: &str) -> (r: Option<&'a BarType>)
    ensures
        bar_type_entries(*m).contains_key(key@) ==> r == Some(&bar_type_entries(*m)[key@]),
        !bar_type_entries(*m).contains_key(key@) ==> r is None,
{
    m.get(key)
}

/// Messages produced by the feed handler.
#[derive(Debug, PartialEq, Eq)]
pub enum NautilusWsMessage {
    /// Trade tick from market_trades channel.
    Trade(TradeTick),
    /// Quote tick from ticker channel.
    Quote(QuoteTick),
    /// Order book deltas from l2_data channel.
    Deltas(OrderBookDeltas),
    /// Bar from candles channel.
    Bar(Bar),
    /// The connection was re-established after a drop.
    Reconnected,
    /// An error occurred during message processing.
    Error(String),
}

/// Commands sent to the feed handler. (Handing over the network client is done by the
/// event loop, which owns it.)
pub enum HandlerCommand {
    /// Subscribes to a channel for the given product IDs.
    Subscribe(CoinbaseWsSubscription),
    /// Unsubscribes from a channel.
    Unsubscribe(CoinbaseWsSubscription),
    /// Disconnects the WebSocket.
    Disconnect,
    /// Caches instruments for precision lookups during parsing.
    InitializeInstruments(Vec<InstrumentAny>),
    /// Updates a single instrument in the cache.
    UpdateInstrument(Box<InstrumentAny>),
    /// Registers a bar type for candle parsing.
    AddBarType { key: String, bar_type: BarType },
    /// Removes a bar type registration.
    RemoveBarType { key: String },
}

/// What the event loop must do after a command.
pub enum CommandAction {
    /// Keep polling.
    Continue,
    /// Send the (un)subscription through the client.
    Send(CoinbaseWsSubscription),
    /// Close the client, if any, and stop.
    Disconnect,
}

/// What the event loop must do at the start of a poll.
pub enum NextStep {
    /// Stop: the shutdown signal is set.
    Shutdown,
    /// Hand out this buffered message.
    Emit(NautilusWsMessage),
    /// Wait for the next command or raw message.
    Wait,
}

/// One poll without the shutdown signal: with nothing buffered it waits and the buffer
/// stays; otherwise it hands out the last buffered message and drops it from the buffer.
pub open spec fn poll_step(
    before: Seq<NautilusWsMessage>,
    step: NextStep,
    after: Seq<NautilusWsMessage>,
) -> bool {
    if before.len() == 0 {
        step is Wait && after == before
    } else {
        step == NextStep::Emit(before.last()) && after == before.drop_last()
    }
}

/// `steps` are the results of successive polls without the shutdown signal, and
/// `buffers[i]` is the buffer before poll `i` (the last one, after all of them).
pub open spec fn successive_polls(buffers: Seq<Seq<NautilusWsMessage>>, steps: Seq<NextStep>) -> bool {
    &&& buffers.len() == steps.len() + 1
    &&& forall|i: int|
        #![trigger steps[i]]
        0 <= i < steps.len() ==> poll_step(buffers[i], steps[i], buffers[i + 1])
}

/// The kinds of raw WebSocket frame that reach the event loop.
#[derive(Debug, Clone, Copy, PartialEq, Eq, Structural)]
pub enum FrameKind {
    Text,
    Binary,
    Ping,
    Pong,
    Close,
    Other,
}

/// What the event loop does with a raw frame.
#[derive(Debug, Clone, Copy, PartialEq, Eq, Structural)]
pub enum FrameAction {
    /// Hand the text to `handle_text`.
    HandleText,
    /// Answer the ping with a pong carrying the same data.
    SendPong,
    /// Stop: the server closed the connection.
    Stop,
    /// Nothing to do.
    Ignore,
}

/// Text frames are handled, a ping is answered when a client is set, a close frame stops
/// the loop, and every other frame is ignored.
pub open spec fn spec_frame_action(kind: FrameKind, has_client: bool) -> FrameAction {
    match kind {
        FrameKind::Text => FrameAction::HandleText,
        FrameKind::Ping => if has_client {
            FrameAction::SendPong
        } else {
            FrameAction::Ignore
        },
        FrameKind::Close => FrameAction::Stop,
        _ => FrameAction::Ignore,
    }
}

/// Decides what the event loop does with a raw frame of kind `kind`, `has_client` telling
/// whether a WebSocket client is set.
pub fn frame_action(kind: FrameKind, has_client: bool) -> (a: FrameAction)
    ensures
        a == spec_frame_action(kind, has_client),
{
    match kind {
        FrameKind::Text => FrameAction::HandleText,
        FrameKind::Ping => if has_client {
            FrameAction::SendPong
        } else {
            FrameAction::Ignore
        },
        FrameKind::Close => FrameAction::Stop,
        _ => FrameAction::Ignore,
    }
}

/// The sentinel text that announces a reconnection.
pub const RECONNECTED: &'static str = "__RECONNECTED__";

/// State of the feed handler: cached instruments, registered bar types, and messages
/// waiting to be handed out (the next one last).
pub struct FeedHandler {
    instruments: AHashMap<InstrumentId, InstrumentAny>,
    bar_types: AHashMap<String, BarType>,
    buffer: Vec<NautilusWsMessage>,
}

impl FeedHandler {
    /// The cached instruments.
    pub closed spec fn instruments_view(&self) -> Map<(Seq<char>, Seq<char>), InstrumentAny> {
        instrument_entries(self.instruments)
    }

    /// The registered bar types.
    pub closed spec fn bar_types_view(&self) -> Map<Seq<char>, BarType> {
        bar_type_entries(self.bar_types)
    }

    /// The buffered messages; the next one to hand out is the last.
    pub closed spec fn buffer_view(&self) -> Seq<NautilusWsMessage> {
        self.buffer@
    }

    /// Creates a handler with no instruments, no bar types, and nothing buffered.
    pub fn new() -> (h: FeedHandler)
        ensures
            h.instruments_view() == Map::<(Seq<char>, Seq<char>), InstrumentAny>::empty(),
            h.bar_types_view() == Map::<Seq<char>, BarType>::empty(),
            h.buffer_view() == Seq::<NautilusWsMessage>::empty(),
    {
        FeedHandler {
            instruments: new_instrument_cache(),
            bar_types: new_bar_type_registry(),
            buffer: Vec::new(),
        }
    }

    /// Number of buffered messages.
    pub fn buffered(&self) -> (n: usize)
        ensures
            n == self.buffer_view().len(),
    {
        self.buffer.len()
    }

    /// The first step of a poll: on the shutdown signal, drop what is buffered and stop;
    /// otherwise hand out the next buffered message, or wait when there is none.
    pub fn next_step(&mut self, signal: bool) -> (step: NextStep)
        ensures
            final(self).instruments_view() == old(self).instruments_view(),
            final(self).bar_types_view() == old(self).bar_types_view(),
            signal ==> step is Shutdown && final(self).buffer_view().len() == 0,
            !signal ==> poll_step(old(self).buffer_view(), step, final(self).buffer_view()),
    {
        if signal {
            self.buffer.clear();
            return NextStep::Shutdown;
        }
        match self.buffer.pop() {
            Some(msg) => NextStep::Emit(msg),
            None => NextStep::Wait,
        }
    }

    /// Applies a command: caches instruments, (un)registers bar types, or tells the event
    /// loop to send a subscription or to disconnect.
    pub fn apply_command(&mut self, cmd: HandlerCommand) -> (action: CommandAction)
        ensures
            final(self).buffer_view() == old(self).buffer_view(),
            match cmd {
                HandlerCommand::Subscribe(s) => action == CommandAction::Send(s)
                    && final(self).instruments_view() == old(self).instruments_view()
                    && final(self).bar_types_view() == old(self).bar_types_view(),
                HandlerCommand::Unsubscribe(s) => action == CommandAction::Send(s)
                    && final(self).instruments_view() == old(self).instruments_view()
                    && final(self).bar_types_view() == old(self).bar_types_view(),
                HandlerCommand::Disconnect => action is Disconnect
                    && final(self).instruments_view() == old(self).instruments_view()
                    && final(self).bar_types_view() == old(self).bar_types_view(),
                HandlerCommand::InitializeInstruments(v) => action is Continue
                    && final(self).instruments_view() == cache_all(old(self).instruments_view(), v@, v@.len() as int)
                    && final(self).bar_types_view() == old(self).bar_types_view(),
                HandlerCommand::UpdateInstrument(b) => action is Continue
                    && final(self).instruments_view() == old(self).instruments_view().insert(
                    id_key(instrument_id_of(*b)),
                    *b,
                ) && final(self).bar_types_view() == old(self).bar_types_view(),
                HandlerCommand::AddBarType { key, bar_type } => action is Continue
                    && final(self).instruments_view() == old(self).instruments_view()
                    && final(self).bar_types_view() == old(self).bar_types_view().insert(key@, bar_type),
                HandlerCommand::RemoveBarType { key } => action is Continue
                    && final(self).instruments_view() == old(self).instruments_view()
                    && final(self).bar_types_view() == old(self).bar_types_view().remove(key@),
            },
    {
        match cmd {
            HandlerCommand::Subscribe(s) => CommandAction::Send(s),
            HandlerCommand::Unsubscribe(s) => CommandAction::Send(s),
            HandlerCommand::Disconnect => CommandAction::Disconnect,
            HandlerCommand::InitializeInstruments(instruments) => {
                let ghost all = instruments@;
                let ghost start = instrument_entries(self.instruments);
                let mut instruments = instruments;
                let mut rest: Vec<InstrumentAny> = Vec::new();
                // Pop from the back, then insert in the given order.
                while instruments.len() > 0
                    invariant
                        instruments@ + rest@.reverse() == all,
                        instrument_entries(self.instruments) == start,
                        self.buffer@ == old(self).buffer@,
                        bar_type_entries(self.bar_types) == bar_type_entries(old(self).bar_types),
                    decreases instruments.len(),
                {
                    let ghost before = instruments@;
                    let inst = instruments.pop().unwrap();
                    rest.push(inst);
                    proof {
                        assert(instruments@ + rest@.reverse() =~= all);
                    }
                }
                let mut k: usize = 0;
                let n = rest.len();
                while rest.len() > 0
                    invariant
                        rest@.reverse() == all.skip(k as int),
                        k + rest.len() == n,
                        n == all.len(),
                        instrument_entries(self.instruments) == cache_all(start, all, k as int),
                        self.buffer@ == old(self).buffer@,
                        bar_type_entries(self.bar_types) == bar_type_entries(old(self).bar_types),
                    decreases rest.len(),
                {
                    let ghost old_rest = rest@;
                    let inst = rest.pop().unwrap();
                    proof {
                        lemma_reverse_pop(old_rest);
                        assert(all.skip(k as int)[0] == all[k as int]);
                        assert(all.skip(k as int).skip(1) =~= all.skip(k + 1));
                    }
                    let id = inst.id();
                    cache_instrument(&mut self.instruments, id, inst);
                    k += 1;
                }
                proof {
                    assert(k == n);
                }
                CommandAction::Continue
            },
            HandlerCommand::UpdateInstrument(inst) => {
                let id = inst.id();
                cache_instrument(&mut self.instruments, id, *inst);
                CommandAction::Continue
            },
            HandlerCommand::AddBarType { key, bar_type } => {
                register_bar_type(&mut self.bar_types, key, bar_type);
                CommandAction::Continue
            },
            HandlerCommand::RemoveBarType { key } => {
                unregister_bar_type(&mut self.bar_types, key.as_str());
                CommandAction::Continue
            },
        }
    }
}

proof fn lemma_reverse_pop<T>(s: Seq<T>)
    requires
        s.len() > 0,
    ensures
        s.reverse()[0] == s.last(),
        s.drop_last().reverse() =~= s.reverse().skip(1),
        s.reverse().len() == s.len(),
{
}

/// The cache after inserting the first `n` of `instruments`, in order.
pub open spec fn cache_all(
    start: Map<(Seq<char>, Seq<char>), InstrumentAny>,
    instruments: Seq<InstrumentAny>,
    n: int,
) -> Map<(Seq<char>, Seq<char>), InstrumentAny>
    decreases n,
{
    if n <= 0 {
        start
    } else {
        cache_all(start, instruments, n - 1).insert(
            id_key(instrument_id_of(instruments[n - 1])),
            instruments[n - 1],
        )
    }
}

/// Positions below `n` of the items that `ok` accepts, in order.
pub open spec fn ok_positions<T>(items: Seq<T>, ok: spec_fn(T) -> bool, n: int) -> Seq<int>
    decreases n,
{
    if n <= 0 {
        Seq::empty()
    } else if ok(items[n - 1]) {
        ok_positions(items, ok, n - 1).push(n - 1)
    } else {
        ok_positions(items, ok, n - 1)
    }
}

/// While a handler scans: `first` holds the message for the first accepted item, and
/// `buffer` holds the old buffer followed by the messages for the later accepted items.
pub open spec fn collected<T>(
    items: Seq<T>,
    pos: Seq<int>,
    fits: spec_fn(NautilusWsMessage, T) -> bool,
    old_buffer: Seq<NautilusWsMessage>,
    first: Option<NautilusWsMessage>,
    buffer: Seq<NautilusWsMessage>,
) -> bool {
    if pos.len() == 0 {
        first is None && buffer == old_buffer
    } else {
        &&& first matches Some(m) && fits(m, items[pos[0]])
        &&& buffer.len() == old_buffer.len() + pos.len() - 1
        &&& buffer.take(old_buffer.len() as int) == old_buffer
        &&& forall|j: int|
            0 <= j < pos.len() - 1 ==> fits(
                #[trigger] buffer[old_buffer.len() + j],
                items[pos[j + 1]],
            )
    }
}

/// After a handler: the message for the first accepted item is returned, and the
/// messages for the later accepted items are queued behind the old buffer, the whole
/// queue reversed so that popping hands them out in order. With no accepted item, nothing
/// is returned and the buffer stays as it was.
pub open spec fn emitted<T>(
    items: Seq<T>,
    pos: Seq<int>,
    fits: spec_fn(NautilusWsMessage, T) -> bool,
    old_buffer: Seq<NautilusWsMessage>,
    result: Option<NautilusWsMessage>,
    buffer: Seq<NautilusWsMessage>,
) -> bool {
    if pos.len() == 0 {
        result is None && buffer == old_buffer
    } else {
        exists|queued: Seq<NautilusWsMessage>|
            {
                &&& collected(items, pos, fits, old_buffer, result, queued)
                &&& buffer == queued.reverse()
            }
    }
}

proof fn lemma_collect_skip<T>(
    items: Seq<T>,
    ok: spec_fn(T) -> bool,
    n: int,
)
    requires
        0 <= n < items.len(),
        !ok(items[n]),
    ensures
        ok_positions(items, ok, n + 1) == ok_positions(items, ok, n),
{
}

proof fn lemma_collect_emit<T>(
    items: Seq<T>,
    ok: spec_fn(T) -> bool,
    fits: spec_fn(NautilusWsMessage, T) -> bool,
    n: int,
    old_buffer: Seq<NautilusWsMessage>,
    first: Option<NautilusWsMessage>,
    buffer: Seq<NautilusWsMessage>,
    msg: NautilusWsMessage,
)
    requires
        0 <= n < items.len(),
        ok(items[n]),
        fits(msg, items[n]),
        collected(items, ok_positions(items, ok, n), fits, old_buffer, first, buffer),
    ensures
        first is None ==> collected(
            items,
            ok_positions(items, ok, n + 1),
            fits,
            old_buffer,
            Some(msg),
            buffer,
        ),
        first is Some ==> collected(
            items,
            ok_positions(items, ok, n + 1),
            fits,
            old_buffer,
            first,
            buffer.push(msg),
        ),
{
    let pos = ok_positions(items, ok, n);
    let pos2 = ok_positions(items, ok, n + 1);
    assert(pos2 == pos.push(n));
    if first is None {
        assert(buffer.take(old_buffer.len() as int) =~= old_buffer);
    } else {
        let b2 = buffer.push(msg);
        assert(b2.take(old_buffer.len() as int) =~= buffer.take(old_buffer.len() as int));
        assert forall|j: int| 0 <= j < pos2.len() - 1 implies fits(
            #[trigger] b2[old_buffer.len() + j],
            items[pos2[j + 1]],
        ) by {
            if j < pos.len() - 1 {
                assert(b2[old_buffer.len() + j] == buffer[old_buffer.len() + j]);
            }
        }
    }
}

/// Sets `first` to `msg` when it is empty, else queues `msg`.
fn emit_message(
    first: &mut Option<NautilusWsMessage>,
    buffer: &mut Vec<NautilusWsMessage>,
    msg: NautilusWsMessage,
)
    ensures
        *old(first) is None ==> *final(first) == Some(msg) && final(buffer)@ == old(buffer)@,
        *old(first) is Some ==> *final(first) == *old(first) && final(buffer)@ == old(buffer)@.push(
            msg,
        ),
{
    if first.is_none() {
        *first = Some(msg);
    } else {
        buffer.push(msg);
    }
}

/// Reverses the buffer in place.
fn reverse_buffer(buffer: &mut Vec<NautilusWsMessage>)
    ensures
        final(buffer)@ == old(buffer)@.reverse(),
{
    let mut out: Vec<NautilusWsMessage> = Vec::new();
    let ghost orig = buffer@;
    while buffer.len() > 0
        invariant
            buffer@ + out@.reverse() == orig,
        decreases buffer.len(),
    {
        let ghost before = buffer@;
        let m = buffer.pop().unwrap();
        out.push(m);
        proof {
            assert(buffer@ + out@.reverse() =~= orig);
        }
    }
    proof {
        assert(out@.reverse().reverse() =~= out@);
        assert(orig =~= out@.reverse());
        assert(out@ =~= orig.reverse());
    }
    *buffer = out;
}

/// Finishing a scan: reverse the queue when something was found.
fn finish_scan<T>(
    Ghost(items): Ghost<Seq<T>>,
    Ghost(pos): Ghost<Seq<int>>,
    Ghost(fits): Ghost<spec_fn(NautilusWsMessage, T) -> bool>,
    Ghost(old_buffer): Ghost<Seq<NautilusWsMessage>>,
    first: Option<NautilusWsMessage>,
    buffer: &mut Vec<NautilusWsMessage>,
) -> (r: Option<NautilusWsMessage>)
    requires
        collected(items, pos, fits, old_buffer, first, old(buffer)@),
    ensures
        emitted(items, pos, fits, old_buffer, r, final(buffer)@),
{
    if first.is_some() {
        let ghost queued = buffer@;
        reverse_buffer(buffer);
        proof {
            assert(collected(items, pos, fits, old_buffer, first, queued));
        }
    }
    first
}

/// Concatenation of the items that `f` picks out of each event.
pub open spec fn flat<E, T>(events: Seq<E>, f: spec_fn(E) -> Seq<T>) -> Seq<T>
    decreases events.len(),
{
    if events.len() == 0 {
        Seq::empty()
    } else {
        flat(events.drop_last(), f) + f(events.last())
    }
}

proof fn lemma_flat_append<E, T>(a: Seq<E>, b: Seq<E>, f: spec_fn(E) -> Seq<T>)
    ensures
        flat(a + b, f) == flat(a, f) + flat(b, f),
    decreases b.len(),
{
    if b.len() == 0 {
        assert(a + b =~= a);
        assert(flat(a, f) + flat(b, f) =~= flat(a, f));
    } else {
        lemma_flat_append(a, b.drop_last(), f);
        assert((a + b).drop_last() =~= a + b.drop_last());
        assert((a + b).last() == b.last());
        assert(flat(a + b, f) =~= flat(a, f) + flat(b, f));
    }
}

/// The items of event `i` follow those of the events before it.
proof fn lemma_flat_step<E, T>(events: Seq<E>, f: spec_fn(E) -> Seq<T>, i: int)
    requires
        0 <= i < events.len(),
    ensures
        flat(events.take(i + 1), f) == flat(events.take(i), f) + f(events[i]),
        flat(events.take(i + 1), f).len() <= flat(events, f).len(),
        flat(events, f) == flat(events.take(i + 1), f) + flat(events.skip(i + 1), f),
{
    assert(events.take(i + 1).drop_last() =~= events.take(i));
    assert(events =~= events.take(i + 1) + events.skip(i + 1));
    lemma_flat_append(events.take(i + 1), events.skip(i + 1), f);
}

/// Item `j` of event `i` sits right after the items of the events before it.
proof fn lemma_flat_position<E, T>(events: Seq<E>, f: spec_fn(E) -> Seq<T>, i: int, j: int)
    requires
        0 <= i < events.len(),
        0 <= j < f(events[i]).len(),
    ensures
        flat(events.take(i), f).len() + j < flat(events, f).len(),
        flat(events, f)[flat(events.take(i), f).len() + j] == f(events[i])[j],
{
    lemma_flat_step(events, f, i);
}

/// Prefix of the first `i` events covers everything when `i` is the length.
proof fn lemma_flat_all<E, T>(events: Seq<E>, f: spec_fn(E) -> Seq<T>)
    ensures
        flat(events.take(events.len() as int), f) == flat(events, f),
{
    assert(events.take(events.len() as int) =~= events);
}

/// The key of the Coinbase instrument for a product.
pub open spec fn product_key(product_id: Seq<char>) -> (Seq<char>, Seq<char>) {
    (product_id, COINBASE@)
}

/// The deltas that an L2 event yields with the cached instruments, if it yields any.
pub open spec fn l2_result(
    imap: Map<(Seq<char>, Seq<char>), InstrumentAny>,
    ts_init: UnixNanos,
    ev: WsL2DataEvent,
) -> Option<Seq<crate::model::OrderBookDelta>> {
    let key = product_key(ev.product_id@);
    if !imap.contains_key(key) {
        None
    } else {
        let inst = imap[key];
        match ev.event_type {
            WsEventType::Snapshot => if ev.updates@.len() >= usize::MAX {
                None
            } else {
                match spec_ws_snapshot(
                ev.updates@,
                instrument_id_of(inst),
                price_precision_of(inst),
                size_precision_of(inst),
                ts_init,
            ) {
                    Ok(ds) => Some(ds),
                    Err(_) => None,
                }
            },
            WsEventType::Update => match spec_update_deltas(
                ev.updates@,
                instrument_id_of(inst),
                price_precision_of(inst),
                size_precision_of(inst),
                ts_init,
                ev.updates@.len() as int,
            ) {
                Ok(ds) => if ds.len() > 0 {
                    Some(ds)
                } else {
                    None
                },
                Err(_) => None,
            },
        }
    }
}

/// An L2 event yields deltas.
pub open spec fn l2_ok(imap: Map<(Seq<char>, Seq<char>), InstrumentAny>, ts_init: UnixNanos) -> spec_fn(
    WsL2DataEvent,
) -> bool {
    |ev: WsL2DataEvent| l2_result(imap, ts_init, ev) is Some
}

/// `m` is the message for the deltas of an L2 event.
pub open spec fn l2_fits(imap: Map<(Seq<char>, Seq<char>), InstrumentAny>, ts_init: UnixNanos) -> spec_fn(
    NautilusWsMessage,
    WsL2DataEvent,
) -> bool {
    |m: NautilusWsMessage, ev: WsL2DataEvent|
        l2_result(imap, ts_init, ev) matches Some(ds) && m matches NautilusWsMessage::Deltas(b)
            && is_batch_of(b, instrument_id_of(imap[product_key(ev.product_id@)]), ds)
}

/// The trade that a market trade yields with the cached instruments, if any.
pub open spec fn trade_result(
    imap: Map<(Seq<char>, Seq<char>), InstrumentAny>,
    ts_init: UnixNanos,
    trade: WsTrade,
) -> Option<TradeTick> {
    let key = product_key(trade.product_id@);
    if !imap.contains_key(key) {
        None
    } else {
        let inst = imap[key];
        match spec_trade_parts(
            trade.price@,
            trade.size@,
            trade.time@,
            price_precision_of(inst),
            size_precision_of(inst),
        ) {
            Ok((p, q, ts)) => if q.raw == 0 {
                None
            } else {
                Some(
                    TradeTick {
                        instrument_id: instrument_id_of(inst),
                        price: p,
                        size: q,
                        aggressor_side: spec_side_to_aggressor(trade.side),
                        trade_id: trade.trade_id,
                        ts_event: ts,
                        ts_init,
                    },
                )
            },
            Err(_) => None,
        }
    }
}

/// A market trade yields a trade.
pub open spec fn trade_ok(imap: Map<(Seq<char>, Seq<char>), InstrumentAny>, ts_init: UnixNanos) -> spec_fn(WsTrade) -> bool {
    |t: WsTrade| trade_result(imap, ts_init, t) is Some
}

/// `m` is the message for the trade of a market trade.
pub open spec fn trade_fits(imap: Map<(Seq<char>, Seq<char>), InstrumentAny>, ts_init: UnixNanos) -> spec_fn(
    NautilusWsMessage,
    WsTrade,
) -> bool {
    |m: NautilusWsMessage, t: WsTrade|
        trade_result(imap, ts_init, t) matches Some(tick) && m == NautilusWsMessage::Trade(tick)
}

/// The trades of a market trades event.
pub open spec fn event_trades() -> spec_fn(WsMarketTradesEvent) -> Seq<WsTrade> {
    |e: WsMarketTradesEvent| e.trades@
}

/// The tickers of a ticker event.
pub open spec fn event_tickers() -> spec_fn(WsTickerEvent) -> Seq<WsTicker> {
    |e: WsTickerEvent| e.tickers@
}

/// The candles of a candles event.
pub open spec fn event_candles() -> spec_fn(WsCandlesEvent) -> Seq<WsCandle> {
    |e: WsCandlesEvent| e.candles@
}

/// The quote that a ticker yields with the cached instruments, if any.
pub open spec fn quote_result(
    imap: Map<(Seq<char>, Seq<char>), InstrumentAny>,
    ts_event: UnixNanos,
    ts_init: UnixNanos,
    ticker: WsTicker,
) -> Option<QuoteTick> {
    let key = product_key(ticker.product_id@);
    if !imap.contains_key(key) {
        None
    } else {
        let inst = imap[key];
        match spec_ticker_parts(ticker, price_precision_of(inst), size_precision_of(inst)) {
            Ok((bp, ap, bs, asz)) => Some(
                QuoteTick {
                    instrument_id: instrument_id_of(inst),
                    bid_price: bp,
                    ask_price: ap,
                    bid_size: bs,
                    ask_size: asz,
                    ts_event,
                    ts_init,
                },
            ),
            Err(_) => None,
        }
    }
}

/// A ticker yields a quote.
pub open spec fn quote_ok(
    imap: Map<(Seq<char>, Seq<char>), InstrumentAny>,
    ts_event: UnixNanos,
    ts_init: UnixNanos,
) -> spec_fn(WsTicker) -> bool {
    |t: WsTicker| quote_result(imap, ts_event, ts_init, t) is Some
}

/// `m` is the message for the quote of a ticker.
pub open spec fn quote_fits(
    imap: Map<(Seq<char>, Seq<char>), InstrumentAny>,
    ts_event: UnixNanos,
    ts_init: UnixNanos,
) -> spec_fn(NautilusWsMessage, WsTicker) -> bool {
    |m: NautilusWsMessage, t: WsTicker|
        quote_result(imap, ts_event, ts_init, t) matches Some(q) && m == NautilusWsMessage::Quote(q)
}

/// The event time of a ticker message: its timestamp, or `ts_init` when it does not parse.
pub open spec fn ticker_time(timestamp: Seq<char>, ts_init: UnixNanos) -> UnixNanos {
    match spec_parse_rfc3339(timestamp) {
        Ok(t) => t,
        Err(_) => ts_init,
    }
}

/// The bar that a candle yields with the registered bar types and cached instruments, if
/// any. A candle whose start time does not fit in nanoseconds yields none.
pub open spec fn bar_result(
    imap: Map<(Seq<char>, Seq<char>), InstrumentAny>,
    bmap: Map<Seq<char>, BarType>,
    ts_init: UnixNanos,
    candle: WsCandle,
) -> Option<Bar> {
    let key = product_key(candle.product_id@);
    if !bmap.contains_key(candle.product_id@) || !imap.contains_key(key) || !epoch_secs_fit(
        candle.start@,
    ) {
        None
    } else {
        let inst = imap[key];
        match spec_bar_from_parts(
            spec_candle_parts(
                candle.open@,
                candle.high@,
                candle.low@,
                candle.close@,
                candle.volume@,
                candle.start@,
                price_precision_of(inst),
                size_precision_of(inst),
            ),
            bmap[candle.product_id@],
            ts_init,
        ) {
            Ok(b) => Some(b),
            Err(_) => None,
        }
    }
}

/// A candle yields a bar.
pub open spec fn bar_ok(
    imap: Map<(Seq<char>, Seq<char>), InstrumentAny>,
    bmap: Map<Seq<char>, BarType>,
    ts_init: UnixNanos,
) -> spec_fn(WsCandle) -> bool {
    |c: WsCandle| bar_result(imap, bmap, ts_init, c) is Some
}

/// `m` is the message for the bar of a candle.
pub open spec fn bar_fits(
    imap: Map<(Seq<char>, Seq<char>), InstrumentAny>,
    bmap: Map<Seq<char>, BarType>,
    ts_init: UnixNanos,
) -> spec_fn(NautilusWsMessage, WsCandle) -> bool {
    |m: NautilusWsMessage, c: WsCandle|
        bar_result(imap, bmap, ts_init, c) matches Some(b) && m == NautilusWsMessage::Bar(b)
}


impl FeedHandler {
    /// Turns L2 events into order book deltas: the deltas of the first event that yields
    /// any are returned, those of the later ones are buffered. Events for uncached
    /// instruments, and events that fail to parse, are skipped.
    pub fn handle_l2_events(&mut self, events: &Vec<WsL2DataEvent>, ts_init: UnixNanos) -> (r: Option<
        NautilusWsMessage,
    >)
        ensures
            final(self).instruments_view() == old(self).instruments_view(),
            final(self).bar_types_view() == old(self).bar_types_view(),
            emitted(
                events@,
                ok_positions(events@, l2_ok(old(self).instruments_view(), ts_init), events@.len() as int),
                l2_fits(old(self).instruments_view(), ts_init),
                old(self).buffer_view(),
                r,
                final(self).buffer_view(),
            ),
    {
        let ghost imap = instrument_entries(self.instruments);
        let ghost ok = l2_ok(imap, ts_init);
        let ghost fits = l2_fits(imap, ts_init);
        let ghost old_buffer = self.buffer@;
        let mut first: Option<NautilusWsMessage> = None;
        let mut i: usize = 0;
        while i < events.len()
            invariant
                i <= events.len(),
                instrument_entries(self.instruments) == imap,
                bar_type_entries(self.bar_types) == bar_type_entries(old(self).bar_types),
                ok == l2_ok(imap, ts_init),
                fits == l2_fits(imap, ts_init),
                collected(events@, ok_positions(events@, ok, i as int), fits, old_buffer, first, self.buffer@),
            decreases events.len() - i,
        {
            let event = &events[i];
            let instrument_id = instrument_id_from_product(event.product_id.as_str());
            let parsed: Option<OrderBookDeltas> = match cached_instrument(&self.instruments, &instrument_id) {
                None => None,
                Some(instrument) => match event.event_type {
                    WsEventType::Snapshot => if event.updates.len() < usize::MAX {
                        match parse_ws_l2_snapshot(event, instrument, ts_init) {
                            Ok(deltas) => Some(deltas),
                            Err(_) => None,
                        }
                    } else {
                        None
                    },
                    WsEventType::Update => match parse_ws_l2_update(event, instrument, ts_init) {
                        Ok(deltas) => Some(deltas),
                        Err(_) => None,
                    },
                },
            };
            proof {
                assert(id_key(instrument_id) == product_key(event.product_id@));
            }
            match parsed {
                Some(deltas) => {
                    let msg = NautilusWsMessage::Deltas(deltas);
                    proof {
                        assert(ok(events@[i as int]));
                        assert(fits(msg, events@[i as int]));
                        lemma_collect_emit(events@, ok, fits, i as int, old_buffer, first, self.buffer@, msg);
                    }
                    emit_message(&mut first, &mut self.buffer, msg);
                },
                None => {
                    proof {
                        assert(!ok(events@[i as int]));
                        lemma_collect_skip(events@, ok, i as int);
                    }
                },
            }
            i += 1;
        }
        finish_scan::<WsL2DataEvent>(
            Ghost(events@),
            Ghost(ok_positions(events@, ok, events@.len() as int)),
            Ghost(fits),
            Ghost(old_buffer),
            first,
            &mut self.buffer,
        )
    }
}


impl FeedHandler {
    /// Turns ticker events into quotes stamped with the message's time (or `ts_init` when
    /// it does not parse): the first quote is returned, the later ones are buffered.
    /// Tickers for uncached instruments, and tickers that fail to parse, are skipped.
    pub fn handle_ticker(&mut self, events: &Vec<WsTickerEvent>, timestamp: &str, ts_init: UnixNanos) -> (r:
        Option<NautilusWsMessage>)
        ensures
            final(self).instruments_view() == old(self).instruments_view(),
            final(self).bar_types_view() == old(self).bar_types_view(),
            ({
                let all = flat(events@, event_tickers());
                let ts_event = ticker_time(timestamp@, ts_init);
                emitted(
                    all,
                    ok_positions(all, quote_ok(old(self).instruments_view(), ts_event, ts_init), all.len() as int),
                    quote_fits(old(self).instruments_view(), ts_event, ts_init),
                    old(self).buffer_view(),
                    r,
                    final(self).buffer_view(),
                )
            }),
    {
        let ts_event = match parse_rfc3339_timestamp(timestamp) {
            Ok(t) => t,
            Err(_) => ts_init,
        };
        let ghost imap = instrument_entries(self.instruments);
        let ghost f = event_tickers();
        let ghost all = flat(events@, f);
        let ghost ok = quote_ok(imap, ts_event, ts_init);
        let ghost fits = quote_fits(imap, ts_event, ts_init);
        let ghost old_buffer = self.buffer@;
        let mut first: Option<NautilusWsMessage> = None;
        let mut i: usize = 0;
        while i < events.len()
            invariant
                i <= events.len(),
                instrument_entries(self.instruments) == imap,
                bar_type_entries(self.bar_types) == bar_type_entries(old(self).bar_types),
                f == event_tickers(),
                all == flat(events@, f),
                ok == quote_ok(imap, ts_event, ts_init),
                fits == quote_fits(imap, ts_event, ts_init),
                collected(all, ok_positions(all, ok, flat(events@.take(i as int), f).len() as int), fits, old_buffer, first, self.buffer@),
            decreases events.len() - i,
        {
            let event = &events[i];
            let ghost base = flat(events@.take(i as int), f).len() as int;
            let mut j: usize = 0;
            while j < event.tickers.len()
                invariant
                    i < events.len(),
                    *event == events@[i as int],
                    j <= event.tickers.len(),
                    base == flat(events@.take(i as int), f).len() as int,
                    instrument_entries(self.instruments) == imap,
                    bar_type_entries(self.bar_types) == bar_type_entries(old(self).bar_types),
                    f == event_tickers(),
                    all == flat(events@, f),
                    ok == quote_ok(imap, ts_event, ts_init),
                    fits == quote_fits(imap, ts_event, ts_init),
                    collected(all, ok_positions(all, ok, base + j), fits, old_buffer, first, self.buffer@),
                decreases event.tickers.len() - j,
            {
                let ticker = &event.tickers[j];
                proof {
                    lemma_flat_position(events@, f, i as int, j as int);
                    assert(all[base + j] == *ticker);
                }
                let instrument_id = instrument_id_from_product(ticker.product_id.as_str());
                let parsed: Option<QuoteTick> = match cached_instrument(&self.instruments, &instrument_id) {
                    None => None,
                    Some(instrument) => match parse_ws_ticker(ticker, instrument, ts_event, ts_init) {
                        Ok(quote) => Some(quote),
                        Err(_) => None,
                    },
                };
                proof {
                    assert(id_key(instrument_id) == product_key(ticker.product_id@));
                }
                match parsed {
                    Some(quote) => {
                        let msg = NautilusWsMessage::Quote(quote);
                        proof {
                            assert(ok(all[base + j]));
                            assert(fits(msg, all[base + j]));
                            lemma_collect_emit(all, ok, fits, base + j, old_buffer, first, self.buffer@, msg);
                        }
                        emit_message(&mut first, &mut self.buffer, msg);
                    },
                    None => {
                        proof {
                            assert(!ok(all[base + j]));
                            lemma_collect_skip(all, ok, base + j);
                        }
                    },
                }
                j += 1;
            }
            proof {
                lemma_flat_step(events@, f, i as int);
            }
            i += 1;
        }
        proof {
            lemma_flat_all(events@, f);
        }
        finish_scan::<WsTicker>(
            Ghost(all),
            Ghost(ok_positions(all, ok, all.len() as int)),
            Ghost(fits),
            Ghost(old_buffer),
            first,
            &mut self.buffer,
        )
    }
}


impl FeedHandler {
    /// Turns candle events into bars of the registered bar types: the first bar is
    /// returned, the later ones are buffered. Candles without a registered bar type or a
    /// cached instrument, candles whose start time does not fit in nanoseconds, and
    /// candles that fail to parse, are skipped.
    pub fn handle_candles(&mut self, events: &Vec<WsCandlesEvent>, ts_init: UnixNanos) -> (r: Option<
        NautilusWsMessage,
    >)
        ensures
            final(self).instruments_view() == old(self).instruments_view(),
            final(self).bar_types_view() == old(self).bar_types_view(),
            ({
                let all = flat(events@, event_candles());
                emitted(
                    all,
                    ok_positions(
                        all,
                        bar_ok(old(self).instruments_view(), old(self).bar_types_view(), ts_init),
                        all.len() as int,
                    ),
                    bar_fits(old(self).instruments_view(), old(self).bar_types_view(), ts_init),
                    old(self).buffer_view(),
                    r,
                    final(self).buffer_view(),
                )
            }),
    {
        let ghost imap = instrument_entries(self.instruments);
        let ghost bmap = bar_type_entries(self.bar_types);
        let ghost f = event_candles();
        let ghost all = flat(events@, f);
        let ghost ok = bar_ok(imap, bmap, ts_init);
        let ghost fits = bar_fits(imap, bmap, ts_init);
        let ghost old_buffer = self.buffer@;
        let mut first: Option<NautilusWsMessage> = None;
        let mut i: usize = 0;
        while i < events.len()
            invariant
                i <= events.len(),
                instrument_entries(self.instruments) == imap,
                bar_type_entries(self.bar_types) == bmap,
                f == event_candles(),
                all == flat(events@, f),
                ok == bar_ok(imap, bmap, ts_init),
                fits == bar_fits(imap, bmap, ts_init),
                collected(all, ok_positions(all, ok, flat(events@.take(i as int), f).len() as int), fits, old_buffer, first, self.buffer@),
            decreases events.len() - i,
        {
            let event = &events[i];
            let ghost base = flat(events@.take(i as int), f).len() as int;
            let mut j: usize = 0;
            while j < event.candles.len()
                invariant
                    i < events.len(),
                    *event == events@[i as int],
                    j <= event.candles.len(),
                    base == flat(events@.take(i as int), f).len() as int,
                    instrument_entries(self.instruments) == imap,
                    bar_type_entries(self.bar_types) == bmap,
                    f == event_candles(),
                    all == flat(events@, f),
                    ok == bar_ok(imap, bmap, ts_init),
                    fits == bar_fits(imap, bmap, ts_init),
                    collected(all, ok_positions(all, ok, base + j), fits, old_buffer, first, self.buffer@),
                decreases event.candles.len() - j,
            {
                let candle = &event.candles[j];
                proof {
                    lemma_flat_position(events@, f, i as int, j as int);
                    assert(all[base + j] == *candle);
                }
                let instrument_id = instrument_id_from_product(candle.product_id.as_str());
                let parsed: Option<Bar> = match registered_bar_type(&self.bar_types, candle.product_id.as_str()) {
                    None => None,
                    Some(bt) => {
                        let bar_type = bt.clone();
                        match cached_instrument(&self.instruments, &instrument_id) {
                            None => None,
                            Some(instrument) => if epoch_secs_in_range(candle.start.as_str()) {
                                match parse_ws_candle(candle, bar_type, instrument, ts_init) {
                                    Ok(bar) => Some(bar),
                                    Err(_) => None,
                                }
                            } else {
                                None
                            },
                        }
                    },
                };
                proof {
                    assert(id_key(instrument_id) == product_key(candle.product_id@));
                }
                match parsed {
                    Some(bar) => {
                        let msg = NautilusWsMessage::Bar(bar);
                        proof {
                            assert(ok(all[base + j]));
                            assert(fits(msg, all[base + j]));
                            lemma_collect_emit(all, ok, fits, base + j, old_buffer, first, self.buffer@, msg);
                        }
                        emit_message(&mut first, &mut self.buffer, msg);
                    },
                    None => {
                        proof {
                            assert(!ok(all[base + j]));
                            lemma_collect_skip(all, ok, base + j);
                        }
                    },
                }
                j += 1;
            }
            proof {
                lemma_flat_step(events@, f, i as int);
            }
            i += 1;
        }
        proof {
            lemma_flat_all(events@, f);
        }
        finish_scan::<WsCandle>(
            Ghost(all),
            Ghost(ok_positions(all, ok, all.len() as int)),
            Ghost(fits),
            Ghost(old_buffer),
            first,
            &mut self.buffer,
        )
    }
}


impl FeedHandler {
    /// Turns market trade events into trades: the first trade is returned, the later ones
    /// are buffered. Trades for uncached instruments, and trades that fail to parse, are
    /// skipped.
    pub fn handle_market_trades(&mut self, events: &Vec<WsMarketTradesEvent>, ts_init: UnixNanos) -> (r:
        Option<NautilusWsMessage>)
        ensures
            final(self).instruments_view() == old(self).instruments_view(),
            final(self).bar_types_view() == old(self).bar_types_view(),
            ({
                let all = flat(events@, event_trades());
                emitted(
                    all,
                    ok_positions(all, trade_ok(old(self).instruments_view(), ts_init), all.len() as int),
                    trade_fits(old(self).instruments_view(), ts_init),
                    old(self).buffer_view(),
                    r,
                    final(self).buffer_view(),
                )
            }),
    {
        let ghost imap = instrument_entries(self.instruments);
        let ghost f = event_trades();
        let ghost all = flat(events@, f);
        let ghost ok = trade_ok(imap, ts_init);
        let ghost fits = trade_fits(imap, ts_init);
        let ghost old_buffer = self.buffer@;
        let mut i: usize = 0;
        while i < events.len()
            invariant
                i <= events.len(),
                instrument_entries(self.instruments) == imap,
                bar_type_entries(self.bar_types) == bar_type_entries(old(self).bar_types),
                f == event_trades(),
                all == flat(events@, f),
                ok == trade_ok(imap, ts_init),
                fits == trade_fits(imap, ts_init),
                old_buffer == old(self).buffer@,
                imap == instrument_entries(old(self).instruments),
                collected(all, ok_positions(all, ok, flat(events@.take(i as int), f).len() as int), fits, old_buffer, None, self.buffer@),
            decreases events.len() - i,
        {
            let event = &events[i];
            let ghost base = flat(events@.take(i as int), f).len() as int;
            let mut j: usize = 0;
            while j < event.trades.len()
                invariant
                    i < events.len(),
                    *event == events@[i as int],
                    j <= event.trades.len(),
                    base == flat(events@.take(i as int), f).len() as int,
                    instrument_entries(self.instruments) == imap,
                    bar_type_entries(self.bar_types) == bar_type_entries(old(self).bar_types),
                    f == event_trades(),
                    all == flat(events@, f),
                    ok == trade_ok(imap, ts_init),
                    fits == trade_fits(imap, ts_init),
                    old_buffer == old(self).buffer@,
                    imap == instrument_entries(old(self).instruments),
                    collected(all, ok_positions(all, ok, base + j), fits, old_buffer, None, self.buffer@),
                decreases event.trades.len() - j,
            {
                let trade = &event.trades[j];
                proof {
                    lemma_flat_position(events@, f, i as int, j as int);
                    assert(all[base + j] == *trade);
                }
                let instrument_id = instrument_id_from_product(trade.product_id.as_str());
                let parsed: Option<TradeTick> = match cached_instrument(&self.instruments, &instrument_id) {
                    None => None,
                    Some(instrument) => match parse_ws_trade(trade, instrument, ts_init) {
                        Ok(tick) => Some(tick),
                        Err(_) => None,
                    },
                };
                proof {
                    assert(id_key(instrument_id) == product_key(trade.product_id@));
                }
                match parsed {
                    Some(tick) => {
                        let msg = NautilusWsMessage::Trade(tick);
                        proof {
                            assert(ok(all[base + j]));
                            assert(fits(msg, all[base + j]));
                            lemma_collect_emit(all, ok, fits, base + j, old_buffer, None, self.buffer@, msg);
                        }
                        self.buffer_remaining_trades(events, i, j, ts_init, Ghost(old_buffer), Ghost(msg));
                        // Reversed so that popping hands the trades out in exchange order.
                        let r = finish_scan::<WsTrade>(
                            Ghost(all),
                            Ghost(ok_positions(all, ok, all.len() as int)),
                            Ghost(fits),
                            Ghost(old_buffer),
                            Some(msg),
                            &mut self.buffer,
                        );
                        return r;
                    },
                    None => {
                        proof {
                            assert(!ok(all[base + j]));
                            lemma_collect_skip(all, ok, base + j);
                        }
                    },
                }
                j += 1;
            }
            proof {
                lemma_flat_step(events@, f, i as int);
            }
            i += 1;
        }
        proof {
            lemma_flat_all(events@, f);
        }
        finish_scan::<WsTrade>(
            Ghost(all),
            Ghost(ok_positions(all, ok, all.len() as int)),
            Ghost(fits),
            Ghost(old_buffer),
            None,
            &mut self.buffer,
        )
    }

    /// Buffers the trades that follow trade `trade_index` of event `event_index`, in
    /// order, skipping those for uncached instruments and those that fail to parse.
    fn buffer_remaining_trades(
        &mut self,
        events: &Vec<WsMarketTradesEvent>,
        event_index: usize,
        trade_index: usize,
        ts_init: UnixNanos,
        Ghost(old_buffer): Ghost<Seq<NautilusWsMessage>>,
        Ghost(first): Ghost<NautilusWsMessage>,
    )
        requires
            event_index < events.len(),
            trade_index < events@[event_index as int].trades.len(),
            collected(
                flat(events@, event_trades()),
                ok_positions(
                    flat(events@, event_trades()),
                    trade_ok(old(self).instruments_view(), ts_init),
                    flat(events@.take(event_index as int), event_trades()).len() + trade_index + 1,
                ),
                trade_fits(old(self).instruments_view(), ts_init),
                old_buffer,
                Some(first),
                old(self).buffer_view(),
            ),
        ensures
            final(self).instruments_view() == old(self).instruments_view(),
            final(self).bar_types_view() == old(self).bar_types_view(),
            collected(
                flat(events@, event_trades()),
                ok_positions(
                    flat(events@, event_trades()),
                    trade_ok(old(self).instruments_view(), ts_init),
                    flat(events@, event_trades()).len() as int,
                ),
                trade_fits(old(self).instruments_view(), ts_init),
                old_buffer,
                Some(first),
                final(self).buffer_view(),
            ),
    {
        let ghost imap = instrument_entries(self.instruments);
        let ghost f = event_trades();
        let ghost all = flat(events@, f);
        let ghost ok = trade_ok(imap, ts_init);
        let ghost fits = trade_fits(imap, ts_init);
        let mut i: usize = event_index;
        let mut start: usize = trade_index + 1;
        while i < events.len()
            invariant
                i <= events.len(),
                i < events.len() ==> start <= events@[i as int].trades.len(),
                i == events.len() ==> start == 0,
                instrument_entries(self.instruments) == imap,
                bar_type_entries(self.bar_types) == bar_type_entries(old(self).bar_types),
                f == event_trades(),
                all == flat(events@, f),
                ok == trade_ok(imap, ts_init),
                fits == trade_fits(imap, ts_init),
                collected(
                    all,
                    ok_positions(all, ok, flat(events@.take(i as int), f).len() + start),
                    fits,
                    old_buffer,
                    Some(first),
                    self.buffer@,
                ),
            decreases events.len() - i,
        {
            let event = &events[i];
            let ghost base = flat(events@.take(i as int), f).len() as int;
            let mut j: usize = start;
            while j < event.trades.len()
                invariant
                    i < events.len(),
                    *event == events@[i as int],
                    j <= event.trades.len(),
                    base == flat(events@.take(i as int), f).len() as int,
                    instrument_entries(self.instruments) == imap,
                    bar_type_entries(self.bar_types) == bar_type_entries(old(self).bar_types),
                    f == event_trades(),
                    all == flat(events@, f),
                    ok == trade_ok(imap, ts_init),
                    fits == trade_fits(imap, ts_init),
                    collected(all, ok_positions(all, ok, base + j), fits, old_buffer, Some(first), self.buffer@),
                decreases event.trades.len() - j,
            {
                let trade = &event.trades[j];
                proof {
                    lemma_flat_position(events@, f, i as int, j as int);
                    assert(all[base + j] == *trade);
                }
                let instrument_id = instrument_id_from_product(trade.product_id.as_str());
                let parsed: Option<TradeTick> = match cached_instrument(&self.instruments, &instrument_id) {
                    None => None,
                    Some(instrument) => match parse_ws_trade(trade, instrument, ts_init) {
                        Ok(tick) => Some(tick),
                        Err(_) => None,
                    },
                };
                proof {
                    assert(id_key(instrument_id) == product_key(trade.product_id@));
                }
                match parsed {
                    Some(tick) => {
                        let msg = NautilusWsMessage::Trade(tick);
                        proof {
                            assert(ok(all[base + j]));
                            assert(fits(msg, all[base + j]));
                            lemma_collect_emit(all, ok, fits, base + j, old_buffer, Some(first), self.buffer@, msg);
                        }
                        self.buffer.push(msg);
                    },
                    None => {
                        proof {
                            assert(!ok(all[base + j]));
                            lemma_collect_skip(all, ok, base + j);
                        }
                    },
                }
                j += 1;
            }
            proof {
                lemma_flat_step(events@, f, i as int);
            }
            i += 1;
            start = 0;
        }
        proof {
            lemma_flat_all(events@, f);
        }
    }
}


/// What handling a parsed message gives: `r` is returned and `buffer` is the buffer after,
/// from the cached instruments `imap`, the registered bar types `bmap` and the buffer
/// `old_buffer` before.
pub open spec fn message_handled(
    imap: Map<(Seq<char>, Seq<char>), InstrumentAny>,
    bmap: Map<Seq<char>, BarType>,
    old_buffer: Seq<NautilusWsMessage>,
    msg: CoinbaseWsMessage,
    ts_init: UnixNanos,
    r: Option<NautilusWsMessage>,
    buffer: Seq<NautilusWsMessage>,
) -> bool {
    match msg {
        CoinbaseWsMessage::L2Data { events } => emitted(
            events@,
            ok_positions(events@, l2_ok(imap, ts_init), events@.len() as int),
            l2_fits(imap, ts_init),
            old_buffer,
            r,
            buffer,
        ),
        CoinbaseWsMessage::MarketTrades { events } => {
            let all = flat(events@, event_trades());
            emitted(
                all,
                ok_positions(all, trade_ok(imap, ts_init), all.len() as int),
                trade_fits(imap, ts_init),
                old_buffer,
                r,
                buffer,
            )
        },
        CoinbaseWsMessage::Ticker { timestamp, events } => ticker_handled(
            imap,
            old_buffer,
            timestamp@,
            events@,
            ts_init,
            r,
            buffer,
        ),
        CoinbaseWsMessage::TickerBatch { timestamp, events } => ticker_handled(
            imap,
            old_buffer,
            timestamp@,
            events@,
            ts_init,
            r,
            buffer,
        ),
        CoinbaseWsMessage::Candles { events } => {
            let all = flat(events@, event_candles());
            emitted(
                all,
                ok_positions(all, bar_ok(imap, bmap, ts_init), all.len() as int),
                bar_fits(imap, bmap, ts_init),
                old_buffer,
                r,
                buffer,
            )
        },
        _ => r is None && buffer == old_buffer,
    }
}

/// What handling ticker events stamped `timestamp` gives.
pub open spec fn ticker_handled(
    imap: Map<(Seq<char>, Seq<char>), InstrumentAny>,
    old_buffer: Seq<NautilusWsMessage>,
    timestamp: Seq<char>,
    events: Seq<WsTickerEvent>,
    ts_init: UnixNanos,
    r: Option<NautilusWsMessage>,
    buffer: Seq<NautilusWsMessage>,
) -> bool {
    let all = flat(events, event_tickers());
    let ts_event = ticker_time(timestamp, ts_init);
    emitted(
        all,
        ok_positions(all, quote_ok(imap, ts_event, ts_init), all.len() as int),
        quote_fits(imap, ts_event, ts_init),
        old_buffer,
        r,
        buffer,
    )
}

impl FeedHandler {
    /// Handles a parsed message: market data channels yield domain messages; heartbeats,
    /// subscription confirmations, user, balance and status messages yield none.
    pub fn handle_message(&mut self, msg: CoinbaseWsMessage, ts_init: UnixNanos) -> (r: Option<
        NautilusWsMessage,
    >)
        ensures
            final(self).instruments_view() == old(self).instruments_view(),
            final(self).bar_types_view() == old(self).bar_types_view(),
            message_handled(
                old(self).instruments_view(),
                old(self).bar_types_view(),
                old(self).buffer_view(),
                msg,
                ts_init,
                r,
                final(self).buffer_view(),
            ),
    {
        match msg {
            CoinbaseWsMessage::L2Data { events } => self.handle_l2_events(&events, ts_init),
            CoinbaseWsMessage::MarketTrades { events } => self.handle_market_trades(&events, ts_init),
            CoinbaseWsMessage::Ticker { timestamp, events } => self.handle_ticker(
                &events,
                timestamp.as_str(),
                ts_init,
            ),
            CoinbaseWsMessage::TickerBatch { timestamp, events } => self.handle_ticker(
                &events,
                timestamp.as_str(),
                ts_init,
            ),
            CoinbaseWsMessage::Candles { events } => self.handle_candles(&events, ts_init),
            CoinbaseWsMessage::Heartbeats => None,
            CoinbaseWsMessage::Subscriptions => None,
            CoinbaseWsMessage::User => None,
            CoinbaseWsMessage::FuturesBalanceSummary => None,
            CoinbaseWsMessage::Status => None,
        }
    }

    /// Handles a received text, given what it parses to (`None` when it is not a message):
    /// the reconnection sentinel yields `Reconnected`; a text that does not parse yields
    /// nothing; a message is handled as `handle_message` does.
    pub fn handle_text(&mut self, text: &str, parsed: Option<CoinbaseWsMessage>, ts_init: UnixNanos) -> (r:
        Option<NautilusWsMessage>)
        ensures
            final(self).instruments_view() == old(self).instruments_view(),
            final(self).bar_types_view() == old(self).bar_types_view(),
            text@ == RECONNECTED@ ==> r == Some(NautilusWsMessage::Reconnected)
                && final(self).buffer_view() == old(self).buffer_view(),
            text@ != RECONNECTED@ && parsed is None ==> r is None && final(self).buffer_view()
                == old(self).buffer_view(),
            text@ != RECONNECTED@ && parsed is Some ==> message_handled(
                old(self).instruments_view(),
                old(self).bar_types_view(),
                old(self).buffer_view(),
                parsed->0,
                ts_init,
                r,
                final(self).buffer_view(),
            ),
    {
        if str_eq(text, RECONNECTED) {
            return Some(NautilusWsMessage::Reconnected);
        }
        match parsed {
            None => None,
            Some(msg) => self.handle_message(msg, ts_init),
        }
    }
}


/// With nothing buffered before a handler runs, its result is the message of the first
/// accepted item, and popping the buffer hands out the messages of the later accepted
/// items in the order they came in.
pub proof fn lemma_drain_in_order<T>(
    items: Seq<T>,
    pos: Seq<int>,
    fits: spec_fn(NautilusWsMessage, T) -> bool,
    result: Option<NautilusWsMessage>,
    buffer: Seq<NautilusWsMessage>,
)
    requires
        emitted(items, pos, fits, Seq::empty(), result, buffer),
        pos.len() > 0,
    ensures
        result matches Some(m) && fits(m, items[pos[0]]),
        buffer.len() == pos.len() - 1,
        forall|k: int|
            0 <= k < buffer.len() ==> fits(#[trigger] buffer[buffer.len() - 1 - k], items[pos[k + 1]]),
{
    let queued = choose|queued: Seq<NautilusWsMessage>|
        {
            &&& collected(items, pos, fits, Seq::empty(), result, queued)
            &&& buffer == queued.reverse()
        };
    assert forall|k: int| 0 <= k < buffer.len() implies fits(
        #[trigger] buffer[buffer.len() - 1 - k],
        items[pos[k + 1]],
    ) by {
        assert(buffer[buffer.len() - 1 - k] == queued[k]);
        assert(queued[0 + k] == queued[k]);
    }
}

proof fn lemma_buffer_after_polls(
    buffers: Seq<Seq<NautilusWsMessage>>,
    steps: Seq<NextStep>,
    i: int,
)
    requires
        successive_polls(buffers, steps),
        0 <= i <= steps.len(),
    ensures
        i <= buffers[0].len() ==> buffers[i] == buffers[0].take(buffers[0].len() - i),
        i > buffers[0].len() ==> buffers[i].len() == 0,
    decreases i,
{
    if i > 0 {
        lemma_buffer_after_polls(buffers, steps, i - 1);
        assert(poll_step(buffers[i - 1], steps[i - 1], buffers[i]));
        if i <= buffers[0].len() {
            assert(buffers[i] =~= buffers[0].take(buffers[0].len() - i));
        }
    }
}

/// Successive polls without the shutdown signal hand out the buffered messages one per
/// poll, from the last buffered to the first, and then wait.
pub proof fn lemma_polls_hand_out_buffer(
    buffers: Seq<Seq<NautilusWsMessage>>,
    steps: Seq<NextStep>,
)
    requires
        successive_polls(buffers, steps),
    ensures
        forall|i: int|
            0 <= i < steps.len() && i < buffers[0].len() ==> #[trigger] steps[i] == NextStep::Emit(
                buffers[0][buffers[0].len() - 1 - i],
            ),
        forall|i: int| 0 <= i < steps.len() && i >= buffers[0].len() ==> #[trigger] steps[i] is Wait,
{
    assert forall|i: int| 0 <= i < steps.len() implies (i < buffers[0].len() ==> #[trigger] steps[i]
        == NextStep::Emit(buffers[0][buffers[0].len() - 1 - i])) && (i >= buffers[0].len()
        ==> steps[i] is Wait) by {
        lemma_buffer_after_polls(buffers, steps, i);
        assert(poll_step(buffers[i], steps[i], buffers[i + 1]));
    }
}

/// A message handled with nothing buffered comes out in the order of its accepted items:
/// the handler's result is the message of the first accepted item, the polls that follow
/// (without the shutdown signal) hand out those of the later accepted items, one per poll
/// and in the order the items came in, and the poll after the last of them waits.
pub proof fn lemma_feed_order<T>(
    items: Seq<T>,
    pos: Seq<int>,
    fits: spec_fn(NautilusWsMessage, T) -> bool,
    result: Option<NautilusWsMessage>,
    buffers: Seq<Seq<NautilusWsMessage>>,
    steps: Seq<NextStep>,
)
    requires
        emitted(items, pos, fits, Seq::empty(), result, buffers[0]),
        pos.len() > 0,
        successive_polls(buffers, steps),
    ensures
        result matches Some(m) && fits(m, items[pos[0]]),
        forall|k: int|
            0 <= k < steps.len() && k < pos.len() - 1 ==> (#[trigger] steps[k] matches NextStep::Emit(
                m,
            ) && fits(m, items[pos[k + 1]])),
        forall|k: int| 0 <= k < steps.len() && k >= pos.len() - 1 ==> #[trigger] steps[k] is Wait,
{
    lemma_drain_in_order(items, pos, fits, result, buffers[0]);
    lemma_polls_hand_out_buffer(buffers, steps);
    assert forall|k: int| 0 <= k < steps.len() && k < pos.len() - 1 implies (
    #[trigger] steps[k] matches NextStep::Emit(m) && fits(m, items[pos[k + 1]])) by {
        let b = buffers[0];
        assert(steps[k] == NextStep::Emit(b[b.len() - 1 - k]));
        assert(fits(b[b.len() - 1 - k], items[pos[k + 1]]));
    }
}

} // verus!
