use vstd::prelude::*;

verus! {

/// What the broadcast needs to know of a channel's type: text channels
/// receive the periodic message, all others are passed over.
#[derive(Clone, Copy, Debug, PartialEq, Eq, Structural)]
pub enum ChannelKind {
    Text,
    Other,
}

/// One channel of a server, as listed by the chat platform.
#[derive(Clone, Debug)]
pub struct ChannelInfo {
    pub id: u64,
    pub kind: ChannelKind,
    pub name: String,
}

pub ghost struct ChannelView {
    pub id: u64,
    pub kind: ChannelKind,
    pub name: Seq<char>,
}

impl View for ChannelInfo {
    type V = ChannelView;

    open spec fn view(&self) -> ChannelView {
        ChannelView { id: self.id, kind: self.kind, name: self.name@ }
    }
}

/// The views of a list of channels, in listing order.
pub open spec fn channels_view(chs: Seq<ChannelInfo>) -> Seq<ChannelView> {
    chs.map_values(|c: ChannelInfo| c@)
}

/// A channel is the broadcast target when it is a text channel carrying
/// exactly the configured name.
pub open spec fn is_target(c: ChannelView, name: Seq<char>) -> bool {
    c.kind == ChannelKind::Text && c.name == name
}

/// The id of the first target channel in listing order, if there is one.
pub open spec fn first_target(chs: Seq<ChannelView>, name: Seq<char>) -> Option<u64>
    decreases chs.len(),
{
    if chs.len() == 0 {
        None
    } else if is_target(chs[0], name) {
        Some(chs[0].id)
    } else {
        first_target(chs.drop_first(), name)
    }
}

/// Looks for the channel that a server's broadcast goes to: the first text
/// channel, in listing order, whose name equals `name`.
pub fn find_target_channel(channels: &Vec<ChannelInfo>, name: &String) -> (r: Option<u64>)
    ensures
        r == first_target(channels_view(channels@), name@),
{
    let ghost all = channels_view(channels@);
    assert(all.subrange(0, all.len() as int) =~= all);
    let mut i: usize = 0;
    while i < channels.len()
        invariant
            0 <= i <= channels.len(),
            all == channels_view(channels@),
            first_target(all, name@) == first_target(all.subrange(i as int, all.len() as int), name@),
        decreases channels.len() - i,
    {
        let c = &channels[i];
        let ghost rest = all.subrange(i as int, all.len() as int);
        assert(rest[0] == c@);
        if c.kind == ChannelKind::Text && c.name == *name {
            return Some(c.id);
        }
        assert(rest.drop_first() =~= all.subrange(i + 1, all.len() as int));
        i = i + 1;
    }
    assert(all.subrange(i as int, all.len() as int) =~= Seq::<ChannelView>::empty());
    None
}

} // verus!
