use animal_bot::broadcast::{Action, Broadcaster, Event, Phase};
use animal_bot::channel::{ChannelInfo, ChannelKind};
use animal_bot::config::{BroadcastSettings, Config};

const URL: &str = "https://en.wikipedia.org/wiki/Dodo";

fn settings(name: &str) -> Option<BroadcastSettings> {
    Some(BroadcastSettings { interval_secs: 1, channel_name: name.to_string() })
}

fn text(id: u64, name: &str) -> ChannelInfo {
    ChannelInfo { id, kind: ChannelKind::Text, name: name.to_string() }
}

fn fetched() -> Event {
    Event::Fetched(URL.to_string())
}

fn is_fetch(a: &Action) -> bool {
    matches!(a, Action::Fetch)
}

fn is_send(a: &Action) -> bool {
    matches!(a, Action::Send(_, _))
}

#[test]
fn starts_by_waiting_for_a_tick() {
    let b = Broadcaster::new(&settings("general"));
    assert_eq!(b.phase(), Phase::Waiting);
    assert!(matches!(b.first_action(), Action::AwaitTick));
}

#[test]
fn one_fetch_per_tick() {
    let mut b = Broadcaster::new(&settings("general"));
    let mut fetches = 0;
    for _ in 0..3 {
        let a = b.step(Event::Tick);
        if is_fetch(&a) {
            fetches += 1;
        }
        let a = b.step(Event::FetchFailed);
        assert!(matches!(a, Action::AwaitTick));
    }
    assert_eq!(fetches, 3);
}

#[test]
fn tick_while_busy_does_not_fetch_again() {
    let mut b = Broadcaster::new(&settings("general"));
    assert!(is_fetch(&b.step(Event::Tick)));
    assert!(matches!(b.step(Event::Tick), Action::Nothing));
    assert_eq!(b.phase(), Phase::Fetching);
}

#[test]
fn failed_fetch_sends_nothing() {
    let mut b = Broadcaster::new(&settings("general"));
    b.step(Event::Tick);
    assert!(matches!(b.step(Event::FetchFailed), Action::AwaitTick));
    assert_eq!(b.phase(), Phase::Waiting);
}

#[test]
fn server_without_channel_gets_nothing() {
    let mut b = Broadcaster::new(&settings("general"));
    b.step(Event::Tick);
    assert!(matches!(b.step(fetched()), Action::ListGuilds));
    assert!(matches!(b.step(Event::Guilds(vec![10])), Action::ListChannels(10)));
    let a = b.step(Event::Channels(vec![text(1, "random")]));
    assert!(matches!(a, Action::AwaitTick));
    assert_eq!(b.phase(), Phase::Waiting);
}

#[test]
fn no_servers_ends_the_tick() {
    let mut b = Broadcaster::new(&settings("general"));
    b.step(Event::Tick);
    b.step(fetched());
    assert!(matches!(b.step(Event::Guilds(vec![])), Action::AwaitTick));
}

#[test]
fn two_servers_one_send() {
    let mut b = Broadcaster::new(&settings("general"));
    let mut sends = Vec::new();
    b.step(Event::Tick);
    b.step(fetched());
    assert!(matches!(b.step(Event::Guilds(vec![10, 20])), Action::ListChannels(10)));
    let a = b.step(Event::Channels(vec![text(1, "rules"), text(2, "general")]));
    if let Action::Send(c, t) = &a {
        sends.push((*c, t.clone()));
    }
    assert!(is_send(&a));
    assert!(matches!(b.step(Event::Sent), Action::ListChannels(20)));
    let a = b.step(Event::Channels(vec![text(3, "rules")]));
    assert!(!is_send(&a));
    assert!(matches!(a, Action::AwaitTick));
    assert_eq!(sends, vec![(2, URL.to_string())]);
}

#[test]
fn failed_server_does_not_stop_the_tick() {
    let mut b = Broadcaster::new(&settings("general"));
    b.step(Event::Tick);
    b.step(fetched());
    b.step(Event::Guilds(vec![10, 20]));
    assert!(matches!(b.step(Event::ChannelsFailed), Action::ListChannels(20)));
    let a = b.step(Event::Channels(vec![text(5, "general")]));
    match a {
        Action::Send(c, t) => {
            assert_eq!(c, 5);
            assert_eq!(t, URL);
        }
        _ => panic!("expected a send"),
    }
    assert!(matches!(b.step(Event::Sent), Action::AwaitTick));
}

#[test]
fn each_tick_sends_its_own_url() {
    let mut b = Broadcaster::new(&settings("general"));
    for url in ["https://a.example/x", "https://a.example/y"] {
        b.step(Event::Tick);
        b.step(Event::Fetched(url.to_string()));
        b.step(Event::Guilds(vec![1]));
        match b.step(Event::Channels(vec![text(9, "general")])) {
            Action::Send(c, t) => {
                assert_eq!(c, 9);
                assert_eq!(t, url);
            }
            _ => panic!("expected a send"),
        }
        assert!(matches!(b.step(Event::Sent), Action::AwaitTick));
    }
}

#[test]
fn unset_interval_never_fetches_or_sends() {
    let cfg = Config::from_values(Some("!".into()), Some("tok".into()), None, None).unwrap();
    let mut b = Broadcaster::new(&cfg.broadcast);
    assert_eq!(b.phase(), Phase::Off);
    assert!(matches!(b.first_action(), Action::Nothing));
    let events = vec![
        Event::Tick,
        fetched(),
        Event::Guilds(vec![1]),
        Event::Channels(vec![text(1, "general")]),
        Event::Sent,
        Event::Tick,
    ];
    for e in events {
        assert!(matches!(b.step(e), Action::Nothing));
        assert_eq!(b.phase(), Phase::Off);
    }
}
