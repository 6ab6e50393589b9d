//! The router: it owns the providers and the one queue that all of them
//! feed, starts and stops them, and finds the provider that owns a chat.

use vstd::prelude::*;

use crate::messaging::provider::{
    channel_try_recv, is_optimistic_echo, open_channel, EventSink, EventView, MessagingProvider,
    ProviderError, ProviderEvent,
};
use crate::messaging::types::{
    AuthStatus, MessageContent, Platform, UnifiedChat, UnifiedMessage,
};

verus! {

/// Index of the first platform in the list that is `platform`, or the length
/// of the list where there is none.
pub open spec fn platform_position(platforms: Seq<Platform>, platform: Platform) -> int
    decreases platforms.len(),
{
    if platforms.len() == 0 {
        0
    } else {
        let earlier = platform_position(platforms.drop_last(), platform);
        if earlier < platforms.len() - 1 {
            earlier
        } else if platforms.last() == platform {
            platforms.len() - 1
        } else {
            platforms.len() as int
        }
    }
}

/// `platform_position` is the first index that holds the platform.
pub proof fn lemma_platform_position(platforms: Seq<Platform>, platform: Platform)
    ensures
        0 <= platform_position(platforms, platform) <= platforms.len(),
        platform_position(platforms, platform) < platforms.len() ==> platforms[platform_position(
            platforms,
            platform,
        )] == platform,
        forall|j: int|
            0 <= j < platform_position(platforms, platform) ==> #[trigger] platforms[j] != platform,
    decreases platforms.len(),
{
    if platforms.len() > 0 {
        lemma_platform_position(platforms.drop_last(), platform);
        let p = platform_position(platforms.drop_last(), platform);
        assert forall|j: int| 0 <= j < platform_position(platforms, platform) implies (
        #[trigger] platforms[j]) != platform by {
            if j < platforms.len() - 1 {
                assert(platforms.drop_last()[j] == platforms[j]);
            }
        }
        if p < platforms.len() - 1 {
            assert(platforms.drop_last()[p] == platforms[p]);
        }
    }
}

/// An index that holds the platform, with none before it, is the
/// `platform_position`.
pub proof fn lemma_platform_position_is(platforms: Seq<Platform>, platform: Platform, at: int)
    requires
        0 <= at <= platforms.len(),
        at < platforms.len() ==> platforms[at] == platform,
        forall|j: int| 0 <= j < at ==> #[trigger] platforms[j] != platform,
    ensures
        platform_position(platforms, platform) == at,
{
    lemma_platform_position(platforms, platform);
}

/// The view of what the queue handed out, if it handed out an event.
pub open spec fn handed_out_view(next: Option<ProviderEvent>) -> Option<EventView> {
    match next {
        Some(event) => Some(event@),
        None => None,
    }
}

/// One step of draining, given what the queue handed out: an event joins
/// those taken, behind them, and the draining goes on; where the queue handed
/// out nothing, those taken stay as they are and the draining ends.
pub fn take_event(events: &mut Vec<ProviderEvent>, next: Option<ProviderEvent>) -> (more: bool)
    ensures
        more == next is Some,
        final(events).deep_view() == (match next {
            Some(event) => old(events).deep_view().push(event@),
            None => old(events).deep_view(),
        }),
{
    match next {
        Some(event) => {
            let ghost before = events.deep_view();
            events.push(event);
            assert(events.deep_view() =~= before.push(event@));
            true
        },
        None => false,
    }
}

/// What the router queues when the start of a provider ended: for a start
/// that failed, the event that says so of the provider's platform; nothing
/// for one that succeeded.
pub fn start_failure_event(platform: Platform, outcome: &Result<(), ProviderError>) -> (event: Option<
    ProviderEvent,
>)
    ensures
        match event {
            Some(e) => outcome is Err && e@ == EventView::AuthStatusChanged(
                platform,
                AuthStatus::Failed,
            ),
            None => outcome is Ok,
        },
{
    match outcome {
        Ok(_) => None,
        Err(_) => Some(ProviderEvent::AuthStatusChanged(platform, AuthStatus::Failed)),
    }
}

/// The events that the router queues of a run of starts: for each start that
/// failed, in the order of the providers, the event that says so of the
/// provider's platform.
pub open spec fn start_failures(
    platforms: Seq<Platform>,
    started: Seq<Result<(), ProviderError>>,
) -> Seq<EventView>
    decreases started.len(),
{
    if started.len() == 0 {
        Seq::empty()
    } else {
        let earlier = start_failures(platforms, started.drop_last());
        if started.last() is Err {
            earlier.push(
                EventView::AuthStatusChanged(platforms[started.len() - 1], AuthStatus::Failed),
            )
        } else {
            earlier
        }
    }
}

/// Owner of the providers and of the queue of their events. The providers
/// are of one type `P`; a client with several backends makes `P` an enum
/// over them.
pub struct MessageRouter<P: MessagingProvider> {
    providers: Vec<P>,
    sink: EventSink,
    rx: tokio::sync::mpsc::UnboundedReceiver<ProviderEvent>,
    /// Every event that was taken off the queue so far, in the order taken.
    taken: Ghost<Seq<EventView>>,
    /// Every event that the router itself handed to its queue so far.
    announced: Ghost<Seq<EventView>>,
}

impl<P: MessagingProvider> MessageRouter<P> {
    /// How many providers are registered.
    pub closed spec fn provider_count(&self) -> nat {
        self.providers.len() as nat
    }

    /// The provider registered at `index`.
    pub closed spec fn provider_at(&self, index: int) -> P {
        self.providers[index]
    }

    /// The platforms of the registered providers, in the order in which they
    /// were registered.
    pub open spec fn platforms(&self) -> Seq<Platform> {
        Seq::new(self.provider_count(), |i: int| self.provider_at(i).serves())
    }

    /// Whether the provider registered at `index` is running.
    pub open spec fn is_running(&self, index: int) -> bool {
        self.provider_at(index).is_running()
    }

    /// Every event that was taken off the queue since the router was made,
    /// in the order in which it was taken.
    pub closed spec fn taken(&self) -> Seq<EventView> {
        self.taken@
    }

    /// Every event that the router itself handed to its queue since it was
    /// made, in the order in which it handed them over.
    pub closed spec fn announced(&self) -> Seq<EventView> {
        self.announced@
    }

    /// Whether the router has the providers of `before`, each as it was.
    pub open spec fn same_providers(&self, before: &Self) -> bool {
        &&& self.provider_count() == before.provider_count()
        &&& forall|i: int|
            0 <= i < before.provider_count() ==> #[trigger] self.provider_at(i)
                == before.provider_at(i)
    }

    /// A router without providers, with an empty queue of its own, off which
    /// nothing was taken.
    pub fn new() -> (router: Self)
        ensures
            router.provider_count() == 0,
            router.taken() == Seq::<EventView>::empty(),
            router.announced() == Seq::<EventView>::empty(),
    {
        let (tx, rx) = open_channel();
        MessageRouter {
            providers: Vec::new(),
            sink: EventSink::new(tx),
            rx,
            taken: Ghost(Seq::empty()),
            announced: Ghost(Seq::empty()),
        }
    }

    /// Adds a provider, behind those that are registered.
    pub fn register_provider(&mut self, provider: P)
        ensures
            final(self).provider_count() == old(self).provider_count() + 1,
            final(self).provider_at(old(self).provider_count() as int) == provider,
            forall|i: int|
                0 <= i < old(self).provider_count() ==> #[trigger] final(self).provider_at(i)
                    == old(self).provider_at(i),
            final(self).platforms() == old(self).platforms().push(provider.serves()),
            final(self).taken() == old(self).taken(),
            final(self).announced() == old(self).announced(),
    {
        self.providers.push(provider);
        assert(self.platforms() =~= old(self).platforms().push(provider.serves()));
    }

    /// A sink that feeds this router's queue.
    pub fn sink(&self) -> (sink: EventSink) {
        self.sink.clone()
    }

    /// Starts every provider, in the order of registration, each with a sink
    /// of this router's queue. A provider that fails to start does not keep
    /// the others from starting: what [`start_failure_event`] makes of its
    /// failure is queued, and the result holds, for each provider, how its
    /// own start ended.
    pub fn start_all(&mut self) -> (started: Vec<Result<(), ProviderError>>)
        ensures
            final(self).platforms() == old(self).platforms(),
            final(self).taken() == old(self).taken(),
            final(self).announced() == old(self).announced() + start_failures(
                old(self).platforms(),
                started@,
            ),
            started.len() == final(self).platforms().len(),
            forall|i: int|
                0 <= i < started.len() ==> ((#[trigger] started[i]) is Ok ==> final(self).is_running(
                    i,
                )),
    {
        let mut started: Vec<Result<(), ProviderError>> = Vec::new();
        let mut i: usize = 0;
        assert(self.announced@ + start_failures(self.platforms(), started@) =~= self.announced@);
        while i < self.providers.len()
            invariant
                0 <= i <= self.providers.len(),
                self.providers.len() == old(self).providers.len(),
                self.taken == old(self).taken,
                self.announced@ == old(self).announced@ + start_failures(
                    old(self).platforms(),
                    started@,
                ),
                started.len() == i,
                forall|k: int|
                    0 <= k < self.providers.len() ==> (#[trigger] self.providers[k]).serves() == old(
                        self,
                    ).providers[k].serves(),
                forall|k: int|
                    0 <= k < i ==> ((#[trigger] started[k]) is Ok ==> self.providers[k].is_running()),
            decreases self.providers.len() - i,
        {
            let sink = self.sink.clone();
            let outcome = self.providers[i].start(sink);
            let ghost so_far = started@;
            match start_failure_event(self.providers[i].platform(), &outcome) {
                Some(failed) => {
                    proof {
                        self.announced@ = self.announced@.push(failed@);
                    }
                    let _ = self.sink.send(failed);
                },
                None => {},
            }
            started.push(outcome);
            proof {
                assert(started@.drop_last() =~= so_far);
                assert(old(self).platforms()[i as int] == self.providers[i as int].serves());
                assert(self.announced@ =~= old(self).announced@ + start_failures(
                    old(self).platforms(),
                    started@,
                ));
            }
            i += 1;
        }
        assert(self.platforms() =~= old(self).platforms());
        started
    }

    /// Stops every provider. A provider that fails to stop does not keep the
    /// others from stopping, and none is running afterwards.
    pub fn stop_all(&mut self) -> (stopped: Vec<Result<(), ProviderError>>)
        ensures
            final(self).platforms() == old(self).platforms(),
            final(self).taken() == old(self).taken(),
            final(self).announced() == old(self).announced(),
            stopped.len() == final(self).platforms().len(),
            forall|i: int| 0 <= i < final(self).platforms().len() ==> !final(self).is_running(i),
    {
        let mut stopped: Vec<Result<(), ProviderError>> = Vec::new();
        let mut i: usize = 0;
        while i < self.providers.len()
            invariant
                0 <= i <= self.providers.len(),
                self.providers.len() == old(self).providers.len(),
                self.taken == old(self).taken,
                self.announced == old(self).announced,
                stopped.len() == i,
                forall|k: int|
                    0 <= k < self.providers.len() ==> (#[trigger] self.providers[k]).serves() == old(
                        self,
                    ).providers[k].serves(),
                forall|k: int| 0 <= k < i ==> !(#[trigger] self.providers[k]).is_running(),
            decreases self.providers.len() - i,
        {
            let outcome = self.providers[i].stop();
            stopped.push(outcome);
            i += 1;
        }
        assert(self.platforms() =~= old(self).platforms());
        stopped
    }

    /// Removes up to `max_events` queued events and hands them out in the
    /// order in which they arrived. It does not wait: what is not queued yet,
    /// and what is queued beyond the cap, stays for a later call. Which
    /// events are queued is up to the providers; what is done with each one
    /// that the queue hands out is what [`take_event`] says, and every one of
    /// them is both handed out and put on record as taken.
    pub fn drain(&mut self, max_events: usize) -> (events: Vec<ProviderEvent>)
        ensures
            events.len() <= max_events,
            final(self).taken() == old(self).taken() + events.deep_view(),
            final(self).announced() == old(self).announced(),
            final(self).same_providers(old(self)),
            final(self).platforms() == old(self).platforms(),
    {
        let mut events: Vec<ProviderEvent> = Vec::new();
        assert(self.taken@ + events.deep_view() =~= self.taken@);
        while events.len() < max_events
            invariant
                events.len() <= max_events,
                self.providers == old(self).providers,
                self.announced == old(self).announced,
                self.taken@ == old(self).taken@ + events.deep_view(),
            decreases max_events - events.len(),
        {
            let ghost so_far = events.deep_view();
            let next = channel_try_recv(&mut self.rx);
            let ghost handed_out = handed_out_view(next);
            proof {
                if handed_out is Some {
                    self.taken@ = self.taken@.push(handed_out->0);
                }
            }
            let more = take_event(&mut events, next);
            assert(events.len() == events.deep_view().len() && so_far.len() + 1 <= max_events);
            assert(self.taken@ =~= old(self).taken@ + events.deep_view());
            if !more {
                break ;
            }
        }
        assert(self.platforms() =~= old(self).platforms());
        events
    }

    /// Removes every event that is queued at this moment.
    pub fn poll_events(&mut self) -> (events: Vec<ProviderEvent>)
        ensures
            final(self).taken() == old(self).taken() + events.deep_view(),
            final(self).announced() == old(self).announced(),
            final(self).same_providers(old(self)),
            final(self).platforms() == old(self).platforms(),
    {
        self.drain(usize::MAX)
    }

    /// Index of the first provider of the given platform; the number of
    /// providers where there is none.
    pub fn provider_index(&self, platform: Platform) -> (at: usize)
        ensures
            at == platform_position(self.platforms(), platform),
            at <= self.provider_count(),
    {
        let mut i: usize = 0;
        while i < self.providers.len()
            invariant
                0 <= i <= self.providers.len(),
                forall|j: int| 0 <= j < i ==> #[trigger] self.platforms()[j] != platform,
            decreases self.providers.len() - i,
        {
            if self.providers[i].platform() == platform {
                proof {
                    lemma_platform_position_is(self.platforms(), platform, i as int);
                }
                return i;
            }
            i += 1;
        }
        proof {
            lemma_platform_position_is(self.platforms(), platform, i as int);
        }
        i
    }

    /// The first provider registered for the given platform.
    pub fn get_provider(&self, platform: Platform) -> (found: Option<&P>)
        ensures
            found is Some <==> platform_position(self.platforms(), platform)
                < self.provider_count(),
            found matches Some(p) ==> *p == self.provider_at(
                platform_position(self.platforms(), platform),
            ) && p.serves() == platform,
    {
        proof {
            lemma_platform_position(self.platforms(), platform);
        }
        let at = self.provider_index(platform);
        if at < self.providers.len() {
            Some(&self.providers[at])
        } else {
            None
        }
    }

    /// The provider that owns a chat: the first one registered for the
    /// chat's platform.
    pub fn route_outbound(&self, chat: &UnifiedChat) -> (owner: Option<&P>)
        ensures
            owner is Some <==> platform_position(self.platforms(), chat.platform)
                < self.provider_count(),
            owner matches Some(p) ==> *p == self.provider_at(
                platform_position(self.platforms(), chat.platform),
            ) && p.serves() == chat.platform,
    {
        self.get_provider(chat.platform)
    }

    /// The first provider registered for the given platform, to be changed.
    /// The router afterwards has that provider as the caller left it, and
    /// every other as it was.
    pub fn get_provider_mut(&mut self, platform: Platform) -> (found: Option<&mut P>)
        ensures
            found is Some <==> platform_position(old(self).platforms(), platform) < old(
                self,
            ).provider_count(),
            found matches Some(p) ==> {
                let at = platform_position(old(self).platforms(), platform);
                &&& *p == old(self).provider_at(at)
                &&& p.serves() == platform
                &&& final(self).provider_count() == old(self).provider_count()
                &&& final(self).provider_at(at) == *final(p)
                &&& forall|i: int|
                    0 <= i < old(self).provider_count() && i != at ==> #[trigger] final(self).provider_at(i) == old(self).provider_at(i)
            },
            found is None ==> final(self).same_providers(old(self)),
            final(self).taken() == old(self).taken(),
            final(self).announced() == old(self).announced(),
    {
        proof {
            lemma_platform_position(self.platforms(), platform);
        }
        let at = self.provider_index(platform);
        if at < self.providers.len() {
            Some(&mut self.providers[at])
        } else {
            None
        }
    }

    /// Sends `content` to a chat through the provider that owns it, and
    /// through no other. Without such a provider, or with one that is not
    /// running, nothing is sent.
    pub fn send_to_chat(&mut self, chat: &UnifiedChat, content: MessageContent) -> (sent: Result<
        UnifiedMessage,
        ProviderError,
    >)
        ensures
            final(self).platforms() == old(self).platforms(),
            final(self).taken() == old(self).taken(),
            final(self).announced() == old(self).announced(),
            final(self).provider_count() == old(self).provider_count(),
            forall|i: int|
                0 <= i < old(self).provider_count() && i != platform_position(
                    old(self).platforms(),
                    chat.platform,
                ) ==> #[trigger] final(self).provider_at(i) == old(self).provider_at(i),
            forall|i: int|
                0 <= i < old(self).provider_count() ==> final(self).is_running(i) == old(
                    self,
                ).is_running(i),
            platform_position(old(self).platforms(), chat.platform) == old(self).provider_count()
                ==> sent matches Err(ProviderError::NotConnected),
            platform_position(old(self).platforms(), chat.platform) < old(self).provider_count()
                && !old(self).is_running(platform_position(old(self).platforms(), chat.platform))
                ==> sent matches Err(ProviderError::NotConnected),
            sent matches Ok(msg) ==> is_optimistic_echo(msg@, chat.platform, chat.id@, content@),
    {
        proof {
            lemma_platform_position(self.platforms(), chat.platform);
        }
        let at = self.provider_index(chat.platform);
        if at < self.providers.len() {
            let sent = self.providers[at].send_message(chat.id.as_str(), content);
            assert(self.platforms() =~= old(self).platforms());
            sent
        } else {
            Err(ProviderError::NotConnected)
        }
    }
}

} // verus!
