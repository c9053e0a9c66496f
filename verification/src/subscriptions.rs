//! Subscriptions to channels, as they are kept on disk and brought in from
//! other programs.

use vstd::prelude::*;
use vstd::string::*;
use crate::text::{chars_of, same_text, starts_with, string_of, texts};

verus! {

/// What the address of every channel starts with; the channel's id follows.
pub const CHANNEL_URL: &'static str = "https://www.youtube.com/channel/";

/// One subscription as it stands in a list of subscriptions.
#[derive(Debug, PartialEq, Eq)]
pub struct Subscription {
    /// The address of the channel.
    pub url: String,
    /// The title of the channel.
    pub name: String,
    /// The service that hosts the channel; zero for the one this program
    /// knows.
    pub service_id: u8,
}

/// A [`Subscription`] as a plain value.
pub struct SubscriptionView {
    pub url: Seq<char>,
    pub name: Seq<char>,
    pub service_id: u8,
}

impl View for Subscription {
    type V = SubscriptionView;

    open spec fn view(&self) -> SubscriptionView {
        SubscriptionView { url: self.url@, name: self.name@, service_id: self.service_id }
    }
}

/// The id of the channel that `sub` subscribes to: what follows
/// [`CHANNEL_URL`] in its address. A subscription with another service, or
/// with an address of another form, names no channel.
pub open spec fn channel_of(sub: SubscriptionView) -> Option<Seq<char>> {
    if sub.service_id == 0 && CHANNEL_URL@.is_prefix_of(sub.url) {
        Some(sub.url.skip(CHANNEL_URL@.len() as int))
    } else {
        None
    }
}

/// The ids of the channels that `subs` name, in the order of `subs`.
pub open spec fn channels_of(subs: Seq<Subscription>) -> Seq<Seq<char>>
    decreases subs.len(),
{
    if subs.len() == 0 {
        Seq::empty()
    } else {
        match channel_of(subs.last()@) {
            Some(id) => channels_of(subs.drop_last()).push(id),
            None => channels_of(subs.drop_last()),
        }
    }
}

impl Subscription {
    /// The subscription to the channel `id`, whose title is `name`.
    pub fn to_channel(id: &str, name: String) -> (sub: Self)
        ensures
            sub@ == (SubscriptionView { url: CHANNEL_URL@ + id@, name: name@, service_id: 0 }),
            channel_of(sub@) == Some(id@),
    {
        let mut url = CHANNEL_URL.to_owned();
        url.append(id);
        assert((CHANNEL_URL@ + id@).skip(CHANNEL_URL@.len() as int) =~= id@);
        assert((CHANNEL_URL@ + id@).subrange(0, CHANNEL_URL@.len() as int) =~= CHANNEL_URL@);
        Subscription { url, name, service_id: 0 }
    }

    /// The id of the channel that is subscribed to, if the subscription names
    /// one.
    pub fn channel_id(&self) -> (id: Option<String>)
        ensures
            match id {
                Some(id) => channel_of(self@) == Some(id@),
                None => channel_of(self@) is None,
            },
    {
        if self.service_id != 0 {
            return None;
        }
        let url = chars_of(self.url.as_str());
        let prefix = chars_of(CHANNEL_URL);
        if starts_with(&url, &prefix) {
            Some(string_of(&url, prefix.len(), url.len()))
        } else {
            None
        }
    }
}

/// Brings a list of subscriptions in: the ids of the channels that it names,
/// in its order. Subscriptions that name no channel are left out.
pub fn imported_channels(subs: &Vec<Subscription>) -> (ids: Vec<String>)
    ensures
        texts(ids@) == channels_of(subs@),
{
    let mut ids: Vec<String> = Vec::new();
    let mut i: usize = 0;
    assert(subs@.take(0) =~= Seq::<Subscription>::empty());
    while i < subs.len()
        invariant
            i <= subs.len(),
            texts(ids@) == channels_of(subs@.take(i as int)),
        decreases subs.len() - i,
    {
        let ghost before = ids@;
        assert(subs@.take(i + 1).drop_last() =~= subs@.take(i as int));
        match subs[i].channel_id() {
            Some(id) => {
                ids.push(id);
                assert(texts(ids@) =~= texts(before).push(id@));
            },
            None => {},
        }
        i = i + 1;
    }
    assert(subs@.take(i as int) =~= subs@);
    ids
}

/// Whether the channel `id` is among the channels `ids`.
pub fn is_subscribed(ids: &Vec<String>, id: &str) -> (found: bool)
    ensures
        found == texts(ids@).contains(id@),
{
    let mut i: usize = 0;
    while i < ids.len()
        invariant
            i <= ids.len(),
            forall|j: int| 0 <= j < i ==> texts(ids@)[j] != id@,
        decreases ids.len() - i,
    {
        if same_text(ids[i].as_str(), id) {
            assert(texts(ids@)[i as int] == id@);
            return true;
        }
        i = i + 1;
    }
    false
}

} // verus!
