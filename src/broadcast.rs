use vstd::prelude::*;

use crate::config::BroadcastSettings;
use crate::channel::{channels_view, find_target_channel, first_target, ChannelInfo, ChannelView};

verus! {

/// Where the broadcast loop stands.
#[derive(Clone, Copy, Debug, PartialEq, Eq, Structural)]
pub enum Phase {
    /// No interval was configured: the loop never runs.
    Off,
    /// Waiting for the next timer tick.
    Waiting,
    /// A fetch of the random page is under way.
    Fetching,
    /// The fetched URL is held; the list of joined servers is asked for.
    Listing,
    /// The channels of the current server are asked for.
    Resolving,
    /// The message is being sent to the current server's target channel.
    Sending,
}

/// What the surrounding runtime reports back after performing an action.
#[derive(Clone, Debug)]
pub enum Event {
    /// The timer fired.
    Tick,
    /// The fetch succeeded; the text of the final URL.
    Fetched(String),
    /// The fetch failed.
    FetchFailed,
    /// The ids of the servers currently joined.
    Guilds(Vec<u64>),
    /// The channels of the current server.
    Channels(Vec<ChannelInfo>),
    /// The current server, or its channels, could not be resolved.
    ChannelsFailed,
    /// The send to the current server finished, well or not.
    Sent,
}

/// What the surrounding runtime is asked to do next.
#[derive(Clone, Debug)]
pub enum Action {
    /// Nothing to perform.
    Nothing,
    /// Wait for the next timer tick.
    AwaitTick,
    /// Fetch the random page.
    Fetch,
    /// List the servers currently joined.
    ListGuilds,
    /// List the channels of this server.
    ListChannels(u64),
    /// Send this text to this channel.
    Send(u64, String),
}

pub ghost enum EventView {
    Tick,
    Fetched(Seq<char>),
    FetchFailed,
    Guilds(Seq<u64>),
    Channels(Seq<ChannelView>),
    ChannelsFailed,
    Sent,
}

pub ghost enum ActionView {
    Nothing,
    AwaitTick,
    Fetch,
    ListGuilds,
    ListChannels(u64),
    Send(u64, Seq<char>),
}

impl View for Event {
    type V = EventView;

    open spec fn view(&self) -> EventView {
        match self {
            Event::Tick => EventView::Tick,
            Event::Fetched(u) => EventView::Fetched(u@),
            Event::FetchFailed => EventView::FetchFailed,
            Event::Guilds(gs) => EventView::Guilds(gs@),
            Event::Channels(chs) => EventView::Channels(channels_view(chs@)),
            Event::ChannelsFailed => EventView::ChannelsFailed,
            Event::Sent => EventView::Sent,
        }
    }
}

impl View for Action {
    type V = ActionView;

    open spec fn view(&self) -> ActionView {
        match self {
            Action::Nothing => ActionView::Nothing,
            Action::AwaitTick => ActionView::AwaitTick,
            Action::Fetch => ActionView::Fetch,
            Action::ListGuilds => ActionView::ListGuilds,
            Action::ListChannels(g) => ActionView::ListChannels(*g),
            Action::Send(c, t) => ActionView::Send(*c, t@),
        }
    }
}

pub ghost struct BroadcastState {
    pub phase: Phase,
    /// Name of the channel that receives the message in each server.
    pub channel_name: Seq<char>,
    /// The URL fetched on this tick; empty between ticks.
    pub message: Seq<char>,
    /// The servers of this tick, in the order they are visited.
    pub guilds: Seq<u64>,
    /// Index in `guilds` of the server being handled.
    pub cursor: nat,
}

impl BroadcastState {
    /// The cursor points into the server list whenever a server is being handled.
    pub open spec fn wf(self) -> bool {
        (self.phase == Phase::Resolving || self.phase == Phase::Sending) ==> self.cursor < self.guilds.len()
    }
}

/// The state between ticks: nothing fetched, no servers held.
pub open spec fn waiting(name: Seq<char>) -> BroadcastState {
    BroadcastState {
        phase: Phase::Waiting,
        channel_name: name,
        message: Seq::empty(),
        guilds: Seq::empty(),
        cursor: 0,
    }
}

/// The state of a loop that never runs.
pub open spec fn off(name: Seq<char>) -> BroadcastState {
    BroadcastState { phase: Phase::Off, ..waiting(name) }
}

/// Done with the current server: go on to the next, or end the tick.
pub open spec fn next_guild(s: BroadcastState) -> (BroadcastState, ActionView) {
    if s.cursor + 1 < s.guilds.len() {
        (
            BroadcastState { phase: Phase::Resolving, cursor: s.cursor + 1, ..s },
            ActionView::ListChannels(s.guilds[s.cursor + 1 as int]),
        )
    } else {
        (waiting(s.channel_name), ActionView::AwaitTick)
    }
}

/// One step of the broadcast loop. An event that does not answer the
/// current phase changes nothing and asks for nothing.
pub open spec fn step_spec(s: BroadcastState, e: EventView) -> (BroadcastState, ActionView) {
    match (s.phase, e) {
        (Phase::Waiting, EventView::Tick) => (
            BroadcastState { phase: Phase::Fetching, ..s },
            ActionView::Fetch,
        ),
        (Phase::Fetching, EventView::Fetched(url)) => (
            BroadcastState { phase: Phase::Listing, message: url, ..s },
            ActionView::ListGuilds,
        ),
        (Phase::Fetching, EventView::FetchFailed) => (waiting(s.channel_name), ActionView::AwaitTick),
        (Phase::Listing, EventView::Guilds(gs)) => if gs.len() == 0 {
            (waiting(s.channel_name), ActionView::AwaitTick)
        } else {
            (
                BroadcastState { phase: Phase::Resolving, guilds: gs, cursor: 0, ..s },
                ActionView::ListChannels(gs[0]),
            )
        },
        (Phase::Resolving, EventView::Channels(chs)) => match first_target(chs, s.channel_name) {
            Some(id) => (BroadcastState { phase: Phase::Sending, ..s }, ActionView::Send(id, s.message)),
            None => next_guild(s),
        },
        (Phase::Resolving, EventView::ChannelsFailed) => next_guild(s),
        (Phase::Sending, EventView::Sent) => next_guild(s),
        _ => (s, ActionView::Nothing),
    }
}

/// The state and the actions after a sequence of events, in order.
pub open spec fn run(s: BroadcastState, es: Seq<EventView>) -> (BroadcastState, Seq<ActionView>)
    decreases es.len(),
{
    if es.len() == 0 {
        (s, Seq::empty())
    } else {
        let (s1, a) = step_spec(s, es[0]);
        let (sn, rest) = run(s1, es.drop_first());
        (sn, seq![a] + rest)
    }
}

/// How many of the actions are fetches.
pub open spec fn fetch_count(acts: Seq<ActionView>) -> nat
    decreases acts.len(),
{
    if acts.len() == 0 {
        0
    } else {
        (if acts[0] == ActionView::Fetch { 1nat } else { 0nat }) + fetch_count(acts.drop_first())
    }
}

/// How many of the events are timer ticks.
pub open spec fn tick_count(es: Seq<EventView>) -> nat
    decreases es.len(),
{
    if es.len() == 0 {
        0
    } else {
        (if es[0] == EventView::Tick { 1nat } else { 0nat }) + tick_count(es.drop_first())
    }
}

/// How many timer ticks arrive while the loop is waiting for one.
pub open spec fn ticks_heard(s: BroadcastState, es: Seq<EventView>) -> nat
    decreases es.len(),
{
    if es.len() == 0 {
        0
    } else {
        (if s.phase == Phase::Waiting && es[0] == EventView::Tick { 1nat } else { 0nat })
            + ticks_heard(step_spec(s, es[0]).0, es.drop_first())
    }
}

/// The messages that the actions send, as (channel, text), in order.
pub open spec fn sends(acts: Seq<ActionView>) -> Seq<(u64, Seq<char>)>
    decreases acts.len(),
{
    if acts.len() == 0 {
        Seq::empty()
    } else {
        let first = match acts[0] {
            ActionView::Send(c, t) => seq![(c, t)],
            _ => Seq::empty(),
        };
        first + sends(acts.drop_first())
    }
}

/// The events with which the runtime answers the handling of one server,
/// given its channel list (`None` when the server or its channels could
/// not be resolved).
pub open spec fn reply(name: Seq<char>, listing: Option<Seq<ChannelView>>) -> Seq<EventView> {
    match listing {
        None => seq![EventView::ChannelsFailed],
        Some(chs) => if first_target(chs, name) is Some {
            seq![EventView::Channels(chs), EventView::Sent]
        } else {
            seq![EventView::Channels(chs)]
        },
    }
}

/// The answers for a whole list of servers, in order.
pub open spec fn replies(name: Seq<char>, listings: Seq<Option<Seq<ChannelView>>>) -> Seq<EventView>
    decreases listings.len(),
{
    if listings.len() == 0 {
        Seq::empty()
    } else {
        reply(name, listings[0]) + replies(name, listings.drop_first())
    }
}

/// What a tick should deliver: the URL, to the target channel of each server
/// that has one, in server order.
pub open spec fn deliveries(
    url: Seq<char>,
    name: Seq<char>,
    listings: Seq<Option<Seq<ChannelView>>>,
) -> Seq<(u64, Seq<char>)>
    decreases listings.len(),
{
    if listings.len() == 0 {
        Seq::empty()
    } else {
        let first = match listings[0] {
            Some(chs) => match first_target(chs, name) {
                Some(id) => seq![(id, url)],
                None => Seq::empty(),
            },
            None => Seq::empty(),
        };
        first + deliveries(url, name, listings.drop_first())
    }
}

/// The events of one full tick: the timer fires, the fetch succeeds with
/// `url`, the servers `gs` are listed, and each is answered as `listings` says.
pub open spec fn tick_events(
    name: Seq<char>,
    url: Seq<char>,
    gs: Seq<u64>,
    listings: Seq<Option<Seq<ChannelView>>>,
) -> Seq<EventView> {
    seq![EventView::Tick, EventView::Fetched(url), EventView::Guilds(gs)] + replies(name, listings)
}

proof fn lemma_run_append(s: BroadcastState, a: Seq<EventView>, b: Seq<EventView>)
    ensures
        run(s, a + b) == (run(run(s, a).0, b).0, run(s, a).1 + run(run(s, a).0, b).1),
    decreases a.len(),
{
    if a.len() == 0 {
        assert(a + b =~= b);
        assert(run(s, a).1 + run(s, b).1 =~= run(s, b).1);
    } else {
        let s1 = step_spec(s, a[0]).0;
        assert((a + b).drop_first() =~= a.drop_first() + b);
        lemma_run_append(s1, a.drop_first(), b);
        let x = run(s1, a.drop_first());
        let y = run(x.0, b);
        assert(seq![step_spec(s, a[0]).1] + (x.1 + y.1) =~= (seq![step_spec(s, a[0]).1] + x.1) + y.1);
    }
}

proof fn lemma_sends_append(a: Seq<ActionView>, b: Seq<ActionView>)
    ensures
        sends(a + b) == sends(a) + sends(b),
    decreases a.len(),
{
    if a.len() == 0 {
        assert(a + b =~= b);
        assert(sends(a) + sends(b) =~= sends(b));
    } else {
        assert((a + b).drop_first() =~= a.drop_first() + b);
        lemma_sends_append(a.drop_first(), b);
        let first = match a[0] {
            ActionView::Send(c, t) => seq![(c, t)],
            _ => Seq::empty(),
        };
        assert(first + (sends(a.drop_first()) + sends(b)) =~= (first + sends(a.drop_first())) + sends(b));
    }
}

proof fn lemma_run_single(s: BroadcastState, e: EventView)
    ensures
        run(s, seq![e]) == (step_spec(s, e).0, seq![step_spec(s, e).1]),
{
    let (s1, a) = step_spec(s, e);
    assert(seq![e][0] == e);
    assert(seq![e].drop_first() =~= Seq::<EventView>::empty());
    assert(run(s1, Seq::<EventView>::empty()) == (s1, Seq::<ActionView>::empty()));
    assert(seq![a] + Seq::<ActionView>::empty() =~= seq![a]);
}

proof fn lemma_sends_single(a: ActionView)
    ensures
        sends(seq![a]) == match a {
            ActionView::Send(c, t) => seq![(c, t)],
            _ => Seq::<(u64, Seq<char>)>::empty(),
        },
{
    assert(seq![a][0] == a);
    assert(seq![a].drop_first() =~= Seq::<ActionView>::empty());
    assert(sends(Seq::<ActionView>::empty()) == Seq::<(u64, Seq<char>)>::empty());
    let first = match a {
        ActionView::Send(c, t) => seq![(c, t)],
        _ => Seq::<(u64, Seq<char>)>::empty(),
    };
    assert(first + Seq::<(u64, Seq<char>)>::empty() =~= first);
}

/// Once the server at the cursor is done, the rest of a tick's servers are
/// handled in turn, and the tick ends back in waiting.
proof fn lemma_servers_delivered(s: BroadcastState, listings: Seq<Option<Seq<ChannelView>>>)
    requires
        s.phase == Phase::Resolving,
        listings.len() > 0,
        s.cursor + listings.len() == s.guilds.len(),
    ensures
        run(s, replies(s.channel_name, listings)).0 == waiting(s.channel_name),
        sends(run(s, replies(s.channel_name, listings)).1) == deliveries(s.message, s.channel_name, listings),
    decreases listings.len(),
{
    let name = s.channel_name;
    let rest = listings.drop_first();
    let r0 = reply(name, listings[0]);
    assert(replies(name, listings) == r0 + replies(name, rest));
    lemma_run_append(s, r0, replies(name, rest));
    let (s1, a0) = run(s, r0);
    let nx = next_guild(s);
    lemma_sends_single(nx.1);
    assert(sends(seq![nx.1]) =~= Seq::<(u64, Seq<char>)>::empty());
    let first = match listings[0] {
        Some(chs) => match first_target(chs, name) {
            Some(id) => seq![(id, s.message)],
            None => Seq::empty(),
        },
        None => Seq::empty(),
    };
    match listings[0] {
        Some(chs) => {
            let e0 = EventView::Channels(chs);
            if first_target(chs, name) is Some {
                let id = first_target(chs, name)->0;
                let mid = BroadcastState { phase: Phase::Sending, ..s };
                assert(step_spec(s, e0) == (mid, ActionView::Send(id, s.message)));
                assert(r0 =~= seq![e0] + seq![EventView::Sent]);
                lemma_run_append(s, seq![e0], seq![EventView::Sent]);
                lemma_run_single(s, e0);
                lemma_run_single(mid, EventView::Sent);
                assert(step_spec(mid, EventView::Sent) == nx);
                assert(s1 == nx.0);
                assert(a0 == seq![ActionView::Send(id, s.message)] + seq![nx.1]);
                lemma_sends_append(seq![ActionView::Send(id, s.message)], seq![nx.1]);
                lemma_sends_single(ActionView::Send(id, s.message));
                assert(sends(a0) =~= first);
            } else {
                assert(step_spec(s, e0) == nx);
                lemma_run_single(s, e0);
                assert(s1 == nx.0);
                assert(sends(a0) =~= first);
            }
        },
        None => {
            assert(step_spec(s, EventView::ChannelsFailed) == nx);
            lemma_run_single(s, EventView::ChannelsFailed);
            assert(s1 == nx.0);
            assert(sends(a0) =~= first);
        },
    }
    let (sn, an) = run(s1, replies(name, rest));
    lemma_sends_append(a0, an);
    assert(deliveries(s.message, name, listings) == first + deliveries(s.message, name, rest));
    if rest.len() == 0 {
        assert(replies(name, rest) =~= Seq::<EventView>::empty());
        assert(deliveries(s.message, name, rest) =~= Seq::<(u64, Seq<char>)>::empty());
        assert(sends(an) =~= Seq::<(u64, Seq<char>)>::empty());
        assert(first + Seq::<(u64, Seq<char>)>::empty() =~= first);
    } else {
        lemma_servers_delivered(s1, rest);
    }
}

/// A broadcaster that is off ignores every event: it stays off, never
/// fetches and never sends.
pub proof fn lemma_off_never_acts(s: BroadcastState, es: Seq<EventView>)
    requires
        s.phase == Phase::Off,
    ensures
        run(s, es).0 == s,
        run(s, es).1.len() == es.len(),
        forall|i: int| 0 <= i < es.len() ==> #[trigger] run(s, es).1[i] == ActionView::Nothing,
        fetch_count(run(s, es).1) == 0,
        sends(run(s, es).1).len() == 0,
    decreases es.len(),
{
    if es.len() > 0 {
        assert(step_spec(s, es[0]) == (s, ActionView::Nothing));
        lemma_off_never_acts(s, es.drop_first());
        let rest = run(s, es.drop_first()).1;
        let all = run(s, es).1;
        assert(all == seq![ActionView::Nothing] + rest);
        assert forall|i: int| 0 <= i < es.len() implies #[trigger] run(s, es).1[i] == ActionView::Nothing by {
            if i > 0 {
                assert(all[i] == rest[i - 1]);
            }
        }
        assert(all.drop_first() =~= rest);
    }
}

/// The loop fetches exactly once for each timer tick that it waits for, and
/// so never more often than the timer fires.
pub proof fn lemma_one_fetch_per_tick(s: BroadcastState, es: Seq<EventView>)
    ensures
        fetch_count(run(s, es).1) == ticks_heard(s, es),
        ticks_heard(s, es) <= tick_count(es),
    decreases es.len(),
{
    if es.len() > 0 {
        let (s1, a) = step_spec(s, es[0]);
        lemma_one_fetch_per_tick(s1, es.drop_first());
        assert(a == ActionView::Fetch <==> (s.phase == Phase::Waiting && es[0] == EventView::Tick));
        assert(run(s, es).1.drop_first() =~= run(s1, es.drop_first()).1);
    }
}

/// A tick in which the fetch succeeds sends the fetched URL to the target
/// channel of each listed server that has one, in server order, and nothing
/// else; servers without such a channel, or that could not be resolved, are
/// passed over without stopping the tick, which ends back in waiting.
pub proof fn lemma_tick_delivers(
    name: Seq<char>,
    url: Seq<char>,
    gs: Seq<u64>,
    listings: Seq<Option<Seq<ChannelView>>>,
)
    requires
        gs.len() == listings.len(),
    ensures
        run(waiting(name), tick_events(name, url, gs, listings)).0 == waiting(name),
        sends(run(waiting(name), tick_events(name, url, gs, listings)).1) == deliveries(url, name, listings),
{
    let s0 = waiting(name);
    let e1 = EventView::Tick;
    let e2 = EventView::Fetched(url);
    let e3 = EventView::Guilds(gs);
    let s1 = step_spec(s0, e1).0;
    let s2 = step_spec(s1, e2).0;
    let (s3, a3) = step_spec(s2, e3);
    lemma_run_single(s0, e1);
    lemma_run_single(s1, e2);
    lemma_run_single(s2, e3);
    lemma_run_append(s0, seq![e1], seq![e2]);
    lemma_run_append(s0, seq![e1] + seq![e2], seq![e3]);
    let head = seq![e1] + seq![e2] + seq![e3];
    assert(head =~= seq![e1, e2, e3]);
    assert(tick_events(name, url, gs, listings) == head + replies(name, listings));
    lemma_run_append(s0, head, replies(name, listings));
    let acts = run(s0, head).1;
    assert(run(s0, head).0 == s3);
    assert(acts == seq![ActionView::Fetch] + seq![ActionView::ListGuilds] + seq![a3]);
    lemma_sends_single(ActionView::Fetch);
    lemma_sends_single(ActionView::ListGuilds);
    lemma_sends_single(a3);
    lemma_sends_append(seq![ActionView::Fetch], seq![ActionView::ListGuilds]);
    lemma_sends_append(seq![ActionView::Fetch] + seq![ActionView::ListGuilds], seq![a3]);
    assert(sends(acts) =~= Seq::<(u64, Seq<char>)>::empty());
    let (sn, an) = run(s3, replies(name, listings));
    lemma_sends_append(acts, an);
    if listings.len() == 0 {
        assert(replies(name, listings) =~= Seq::<EventView>::empty());
        assert(deliveries(url, name, listings) =~= Seq::<(u64, Seq<char>)>::empty());
        assert(s3 == s0);
        assert(sends(an) =~= Seq::<(u64, Seq<char>)>::empty());
    } else {
        assert(s3.message == url && s3.channel_name == name);
        lemma_servers_delivered(s3, listings);
    }
    assert(Seq::<(u64, Seq<char>)>::empty() + sends(an) =~= sends(an));
}

/// A tick over a single server that has no target channel, or that could
/// not be resolved, sends nothing and ends back in waiting.
pub proof fn lemma_no_target_no_send(
    name: Seq<char>,
    url: Seq<char>,
    g: u64,
    listing: Option<Seq<ChannelView>>,
)
    requires
        listing matches Some(chs) ==> first_target(chs, name) is None,
    ensures
        run(waiting(name), tick_events(name, url, seq![g], seq![listing])).0 == waiting(name),
        sends(run(waiting(name), tick_events(name, url, seq![g], seq![listing])).1).len() == 0,
{
    lemma_tick_delivers(name, url, seq![g], seq![listing]);
    reveal_with_fuel(deliveries, 2);
    assert(seq![listing].drop_first() =~= Seq::<Option<Seq<ChannelView>>>::empty());
}

/// Of two servers, one with a target channel and one without, a tick sends
/// exactly one message: the fetched URL, to the first server's target.
pub proof fn lemma_one_of_two_servers(
    name: Seq<char>,
    url: Seq<char>,
    g1: u64,
    g2: u64,
    chs1: Seq<ChannelView>,
    chs2: Seq<ChannelView>,
)
    requires
        first_target(chs1, name) is Some,
        first_target(chs2, name) is None,
    ensures
        sends(run(waiting(name), tick_events(name, url, seq![g1, g2], seq![Some(chs1), Some(chs2)])).1)
            == seq![(first_target(chs1, name)->0, url)],
{
    let listings = seq![Some(chs1), Some(chs2)];
    lemma_tick_delivers(name, url, seq![g1, g2], listings);
    reveal_with_fuel(deliveries, 3);
    assert(listings.drop_first() =~= seq![Some(chs2)]);
    assert(seq![Some(chs2)].drop_first() =~= Seq::<Option<Seq<ChannelView>>>::empty());
    let one = seq![(first_target(chs1, name)->0, url)];
    assert(one + (Seq::<(u64, Seq<char>)>::empty() + Seq::<(u64, Seq<char>)>::empty()) =~= one);
}

/// The periodic broadcast of a fetched URL to one named channel per server.
pub struct Broadcaster {
    phase: Phase,
    channel_name: String,
    message: String,
    guilds: Vec<u64>,
    cursor: usize,
}

impl View for Broadcaster {
    type V = BroadcastState;

    closed spec fn view(&self) -> BroadcastState {
        BroadcastState {
            phase: self.phase,
            channel_name: self.channel_name@,
            message: self.message@,
            guilds: self.guilds@,
            cursor: self.cursor as nat,
        }
    }
}

impl Broadcaster {
    /// A broadcaster for the configured settings; with none it is off for good.
    pub fn new(settings: &Option<BroadcastSettings>) -> (r: Broadcaster)
        ensures
            r@.wf(),
            (settings is None) ==> r@ == off(Seq::empty()),
            (settings is Some) ==> r@ == waiting(settings->0.channel_name@),
    {
        match settings {
            Some(b) => Broadcaster {
                phase: Phase::Waiting,
                channel_name: b.channel_name.clone(),
                message: String::new(),
                guilds: Vec::new(),
                cursor: 0,
            },
            None => Broadcaster {
                phase: Phase::Off,
                channel_name: String::new(),
                message: String::new(),
                guilds: Vec::new(),
                cursor: 0,
            },
        }
    }

    pub fn phase(&self) -> (r: Phase)
        ensures
            r == self@.phase,
    {
        self.phase
    }

    /// The action that starts the loop: wait for a tick, or nothing when off.
    pub fn first_action(&self) -> (r: Action)
        ensures
            self@.phase == Phase::Waiting ==> r@ == ActionView::AwaitTick,
            self@.phase != Phase::Waiting ==> r@ == ActionView::Nothing,
    {
        if self.phase == Phase::Waiting {
            Action::AwaitTick
        } else {
            Action::Nothing
        }
    }

    fn finish_guild(&mut self) -> (r: Action)
        requires
            old(self)@.wf(),
            old(self)@.phase == Phase::Resolving || old(self)@.phase == Phase::Sending,
        ensures
            final(self)@.wf(),
            (final(self)@, r@) == next_guild(old(self)@),
    {
        let n: usize = self.guilds.len();
        if self.cursor + 1 < n {
            self.cursor = self.cursor + 1;
            self.phase = Phase::Resolving;
            Action::ListChannels(self.guilds[self.cursor])
        } else {
            self.to_waiting();
            Action::AwaitTick
        }
    }

    fn to_waiting(&mut self)
        ensures
            final(self)@ == waiting(old(self)@.channel_name),
    {
        self.phase = Phase::Waiting;
        self.message = String::new();
        self.guilds = Vec::new();
        self.cursor = 0;
    }

    /// Takes what the runtime reports and returns what it should do next.
    pub fn step(&mut self, e: Event) -> (r: Action)
        requires
            old(self)@.wf(),
        ensures
            final(self)@.wf(),
            (final(self)@, r@) == step_spec(old(self)@, e@),
    {
        match (self.phase, e) {
            (Phase::Waiting, Event::Tick) => {
                self.phase = Phase::Fetching;
                Action::Fetch
            },
            (Phase::Fetching, Event::Fetched(url)) => {
                self.phase = Phase::Listing;
                self.message = url;
                Action::ListGuilds
            },
            (Phase::Fetching, Event::FetchFailed) => {
                self.to_waiting();
                Action::AwaitTick
            },
            (Phase::Listing, Event::Guilds(gs)) => {
                if gs.len() == 0 {
                    self.to_waiting();
                    Action::AwaitTick
                } else {
                    let first: u64 = gs[0];
                    self.phase = Phase::Resolving;
                    self.guilds = gs;
                    self.cursor = 0;
                    Action::ListChannels(first)
                }
            },
            (Phase::Resolving, Event::Channels(chs)) => {
                match find_target_channel(&chs, &self.channel_name) {
                    Some(id) => {
                        self.phase = Phase::Sending;
                        Action::Send(id, self.message.clone())
                    },
                    None => self.finish_guild(),
                }
            },
            (Phase::Resolving, Event::ChannelsFailed) => self.finish_guild(),
            (Phase::Sending, Event::Sent) => self.finish_guild(),
            _ => Action::Nothing,
        }
    }
}

} // verus!
