use vstd::prelude::*;

verus! {

/// The page that redirects to a randomly chosen extinct animal.
pub const RANDOM_ANIMAL_ADDRESS: &'static str = "https://en.wikipedia.org/wiki/Special:RandomInCategory/Extinct_animals";

/// The reply to `ping`, whatever arguments came with it.
pub fn ping_reply(args: &str) -> (r: String)
    ensures
        r@ == "pong"@,
{
    "pong".to_owned()
}

/// The reply to `animal`: the text of the URL that the fetch resolved to.
pub fn animal_reply(url: &str) -> (r: String)
    ensures
        r@ == url@,
{
    url.to_owned()
}

} // verus!
