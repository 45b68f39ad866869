use animal_bot::command::{animal_reply, ping_reply, RANDOM_ANIMAL_ADDRESS};

#[test]
fn ping_replies_pong() {
    assert_eq!(ping_reply(""), "pong");
    assert_eq!(ping_reply("hello there"), "pong");
    assert_eq!(ping_reply("pong"), "pong");
}

#[test]
fn animal_reply_is_the_url() {
    let url = "https://en.wikipedia.org/wiki/Dodo";
    assert_eq!(animal_reply(url), url);
    assert_ne!(animal_reply(url), RANDOM_ANIMAL_ADDRESS);
}

#[test]
fn random_address_is_the_extinct_animals_page() {
    assert_eq!(
        RANDOM_ANIMAL_ADDRESS,
        "https://en.wikipedia.org/wiki/Special:RandomInCategory/Extinct_animals"
    );
}
