//! The event bus: one broadcast channel for each type of event.
//!
//! The channels are `tokio`'s. What is decided here is which channel an
//! event type gets: the registry holds at most one channel for each key,
//! makes it when the key is first seen, and never removes one. The bus is
//! the registry behind a lock, so that any number of threads can subscribe
//! and publish; the lock admits well-formed registries only.

use std::any::Any;
use std::any::TypeId;
use tokio::sync::broadcast::Receiver;
use tokio::sync::broadcast::Sender;
use vstd::prelude::*;
use vstd::rwlock::ReadHandle;
use vstd::rwlock::RwLock;
use vstd::rwlock::RwLockPredicate;
use vstd::rwlock::WriteHandle;

verus! {

/// `std::any::TypeId`: the key of an event type. Keys are compared, never
/// looked into.
#[verifier::external_type_specification]
#[verifier::external_body]
pub struct ExTypeId(TypeId);

/// `tokio::sync::broadcast::Receiver`: handed to the subscriber as it comes
/// from the channel.
#[verifier::external_type_specification]
#[verifier::external_body]
#[verifier::reject_recursive_types(T)]
pub struct ExReceiver<T>(Receiver<T>);

/// How many events a channel holds for a receiver that has fallen behind,
/// before that receiver misses the oldest.
pub const CHANNEL_CAPACITY: usize = 1024;

/// The sending half of a broadcast channel, with the type of its events
/// erased: a `tokio::sync::broadcast::Sender` of some event type behind
/// `dyn Any + Send + Sync`, which is a type that the verifier does not take
/// in a field; and the key of that event type, which the channel was made
/// for.
#[verifier::external_body]
#[allow(dead_code)]
pub struct ChannelHandle {
    made_for: TypeId,
    inner: Box<dyn Any + Send + Sync>,
}

/// The capacity that the channel behind `handle` was made with.
pub uninterp spec fn channel_capacity(handle: ChannelHandle) -> nat;

/// The key that the channel behind `handle` was made for: the key of the
/// type of its events.
pub uninterp spec fn channel_type(handle: ChannelHandle) -> TypeId;

/// Whether `key` is a key that `TypeId::of` gives for the event type `T`.
pub closed spec fn is_key_of<T: 'static>(key: TypeId) -> bool {
    call_ensures(type_key::<T>, (), key)
}

/// The key of the event type `T`.
pub open spec fn key_of<T: 'static>() -> TypeId {
    choose|key: TypeId| is_key_of::<T>(key)
}

/// The event type `T` has a key, and one only.
pub open spec fn has_one_key<T: 'static>() -> bool {
    &&& is_key_of::<T>(key_of::<T>())
    &&& forall|other: TypeId| #[trigger] is_key_of::<T>(other) ==> other == key_of::<T>()
}

/// Why the bus could not serve a call.
#[derive(Clone, Copy, Debug, PartialEq, Eq, Structural)]
pub enum BusError {
    /// The channel registered under the key carries events of another type.
    TypeMismatch,
}

/// Calls `TypeId::of`. Nothing is claimed of the key here: the keys that
/// this call can give for `T` are what [`is_key_of`] speaks of.
#[verifier::external_body]
fn type_key<T: 'static>() -> TypeId {
    TypeId::of::<T>()
}

/// Calls `TypeId::of`, which gives one key for a type, the same every
/// time: whatever key it gives for `T` anywhere is this one.
#[verifier::external_body]
fn own_key<T: 'static>() -> (key: TypeId)
    ensures
        is_key_of::<T>(key),
        forall|other: TypeId| #[trigger] is_key_of::<T>(other) ==> other == key,
{
    TypeId::of::<T>()
}

/// Calls `TypeId::eq`: two keys are equal exactly when they are the same
/// key.
#[verifier::external_body]
fn same_key(a: &TypeId, b: &TypeId) -> (same: bool)
    ensures
        same == (*a == *b),
{
    a == b
}

/// Calls `tokio::sync::broadcast::channel`, which panics on a capacity of
/// zero or above `usize::MAX / 2`. Hands back the sending half, erased, and
/// the channel's first receiver. The handle remembers `key`, which is the
/// key of `T`: the key of the type of the channel's events.
#[verifier::external_body]
fn open_channel<T: Clone + Send + Sync + 'static>(key: TypeId, capacity: usize) -> (made: (
    ChannelHandle,
    Receiver<T>,
))
    requires
        is_key_of::<T>(key),
        0 < capacity <= usize::MAX / 2,
    ensures
        channel_capacity(made.0) == capacity,
        channel_type(made.0) == key,
{
    let (sender, receiver) = tokio::sync::broadcast::channel::<T>(capacity);
    (ChannelHandle { made_for: key, inner: Box::new(sender) }, receiver)
}

/// Calls `Sender::subscribe` on the channel behind `handle`, if it carries
/// events of type `T`; `None` if it carries another type
/// (`<dyn Any>::downcast_ref`). A channel that was made for the key of `T`
/// carries events of type `T`, since no two types have one key.
#[verifier::external_body]
fn attach<T: Clone + Send + Sync + 'static>(handle: &ChannelHandle) -> (receiver: Option<
    Receiver<T>,
>)
    ensures
        is_key_of::<T>(channel_type(*handle)) ==> receiver is Some,
{
    match handle.inner.downcast_ref::<Sender<T>>() {
        Some(sender) => Some(sender.subscribe()),
        None => None,
    }
}

/// Calls `Sender::send` on the channel behind `handle`, if it carries
/// events of type `T`, and hands back what it answers: the number of
/// receivers that the channel had when the event was sent, none of which
/// need ever read it; zero where there was none and the event is dropped.
/// `None` if the channel carries another type
/// (`<dyn Any>::downcast_ref`). A channel that was made for the key of `T`
/// carries events of type `T`, since no two types have one key. Receivers
/// come and go outside this library: nothing is claimed of their number.
#[verifier::external_body]
fn send_on<T: Clone + Send + Sync + 'static>(handle: &ChannelHandle, event: T) -> (receivers:
    Option<usize>)
    ensures
        is_key_of::<T>(channel_type(*handle)) ==> receivers is Some,
{
    match handle.inner.downcast_ref::<Sender<T>>() {
        Some(sender) => Some(
            match sender.send(event) {
                Ok(receivers) => receivers,
                Err(_) => 0,
            },
        ),
        None => None,
    }
}

/// Whether `receiver` hangs on the channel behind `handle`: it is what came
/// back when `tokio::sync::broadcast::channel` made the channel, as its
/// first receiver, or when `Sender::subscribe` was called on it. What the
/// channel then does for the receiver is the channel's.
pub closed spec fn hangs_on<T: Clone + Send + Sync + 'static>(
    handle: ChannelHandle,
    receiver: Receiver<T>,
) -> bool {
    ||| call_ensures(attach::<T>, (&handle,), Some(receiver))
    ||| exists|key: TypeId, capacity: usize|
        call_ensures(open_channel::<T>, (key, capacity), (handle, receiver))
}

/// Whether `receivers` is what `Sender::send` answered for `event` on the
/// channel behind `handle`: the call was made on this channel with this
/// event, and this is the number of receivers that came back.
pub closed spec fn sent_on<T: Clone + Send + Sync + 'static>(
    handle: ChannelHandle,
    event: T,
    receivers: usize,
) -> bool {
    call_ensures(send_on::<T>, (&handle, event), Some(receivers))
}

/// One registered channel: the key of its event type and its sending half.
pub struct Slot {
    key: TypeId,
    handle: ChannelHandle,
}

/// The keys after `key` was looked up or registered: nothing changes where
/// it is known already, else it is added behind the others.
pub open spec fn registered(keys: Seq<TypeId>, key: TypeId) -> Seq<TypeId> {
    if keys.contains(key) {
        keys
    } else {
        keys.push(key)
    }
}

/// How many channels are registered under `key`.
pub open spec fn channels_for(keys: Seq<TypeId>, key: TypeId) -> nat {
    keys.filter(|k: TypeId| k == key).len()
}

/// The channels of a bus, in the order in which they were made.
pub struct Registry {
    slots: Vec<Slot>,
}

impl Registry {
    /// The registered channels, oldest first.
    pub closed spec fn channels(&self) -> Seq<Slot> {
        self.slots@
    }

    /// The keys of the registered channels, oldest first.
    pub closed spec fn keys(&self) -> Seq<TypeId> {
        self.slots@.map_values(|slot: Slot| slot.key)
    }

    /// The capacity of the channel at place `i`.
    pub closed spec fn capacity_at(&self, i: int) -> nat {
        channel_capacity(self.slots@[i].handle)
    }

    /// The key that the channel at place `i` was made for.
    pub closed spec fn made_for_at(&self, i: int) -> TypeId {
        channel_type(self.slots@[i].handle)
    }

    /// Whether `receiver` hangs on the channel that is registered under
    /// `key`.
    pub closed spec fn gives<T: Clone + Send + Sync + 'static>(
        &self,
        key: TypeId,
        receiver: Receiver<T>,
    ) -> bool {
        exists|i: int|
            0 <= i < self.slots@.len() && self.slots@[i].key == key && #[trigger] hangs_on(
                self.slots@[i].handle,
                receiver,
            )
    }

    /// Whether `receivers` is the answer to `event` of the channel that is
    /// registered under `key`: the number of receivers that the channel had
    /// when the event was sent.
    pub closed spec fn carried<T: Clone + Send + Sync + 'static>(
        &self,
        key: TypeId,
        event: T,
        receivers: usize,
    ) -> bool {
        exists|i: int|
            0 <= i < self.slots@.len() && self.slots@[i].key == key && #[trigger] sent_on(
                self.slots@[i].handle,
                event,
                receivers,
            )
    }

    /// No key has two channels, every channel has the bus's capacity, and
    /// every channel is registered under the key that it was made for.
    pub open spec fn wf(&self) -> bool {
        &&& self.keys().no_duplicates()
        &&& forall|i: int|
            0 <= i < self.keys().len() ==> #[trigger] self.capacity_at(i) == CHANNEL_CAPACITY
        &&& forall|i: int|
            0 <= i < self.keys().len() ==> #[trigger] self.made_for_at(i) == self.keys()[i]
    }

    /// A registry without channels.
    pub fn new() -> (registry: Registry)
        ensures
            registry.wf(),
            registry.keys() == Seq::<TypeId>::empty(),
    {
        let registry = Registry { slots: Vec::new() };
        assert(registry.keys() =~= Seq::<TypeId>::empty());
        registry
    }

    /// The number of channels.
    pub fn len(&self) -> (n: usize)
        ensures
            n == self.keys().len(),
    {
        self.slots.len()
    }

    /// The place of the channel registered under `key`, if there is one.
    pub fn find(&self, key: &TypeId) -> (place: Option<usize>)
        ensures
            match place {
                Some(i) => i < self.keys().len() && self.keys()[i as int] == *key,
                None => !self.keys().contains(*key),
            },
    {
        let mut i: usize = 0;
        while i < self.slots.len()
            invariant
                i <= self.slots.len(),
                forall|j: int| 0 <= j < i ==> self.keys()[j] != *key,
            decreases self.slots.len() - i,
        {
            if same_key(&self.slots[i].key, key) {
                return Some(i);
            }
            i = i + 1;
        }
        None
    }

    /// Registers a fresh channel for events of type `T` under `key`, which
    /// is the key of `T` and has no channel yet, and hands back the
    /// channel's first receiver.
    fn register<T: Clone + Send + Sync + 'static>(&mut self, key: TypeId) -> (receiver: Receiver<T>)
        requires
            old(self).wf(),
            !old(self).keys().contains(key),
            is_key_of::<T>(key),
        ensures
            final(self).wf(),
            final(self).keys() == old(self).keys().push(key),
            final(self).channels().drop_last() == old(self).channels(),
            final(self).gives(key, receiver),
    {
        let made = open_channel::<T>(key, CHANNEL_CAPACITY);
        assert(hangs_on(made.0, made.1));
        let (handle, receiver) = made;
        let ghost before = self.keys();
        self.slots.push(Slot { key, handle });
        proof {
            assert(self.channels().drop_last() =~= old(self).channels());
            assert(self.keys() =~= before.push(key));
            assert(self.slots@[before.len() as int].key == key && hangs_on(
                self.slots@[before.len() as int].handle,
                receiver,
            ));
            assert forall|i: int| 0 <= i < self.keys().len() implies #[trigger] self.capacity_at(i)
                == CHANNEL_CAPACITY by {
                if i < before.len() {
                    assert(self.capacity_at(i) == old(self).capacity_at(i));
                }
            }
            assert forall|i: int| 0 <= i < self.keys().len() implies #[trigger] self.made_for_at(i)
                == self.keys()[i] by {
                if i < before.len() {
                    assert(self.made_for_at(i) == old(self).made_for_at(i));
                    assert(self.keys()[i] == before[i]);
                }
            }
            assert forall|i: int, j: int|
                0 <= i < self.keys().len() && 0 <= j < self.keys().len() && i != j implies self.keys()[i]
                != self.keys()[j] by {
                if i < before.len() && j < before.len() {
                    assert(before[i] != before[j]);
                } else if i < before.len() {
                    assert(before.contains(before[i]));
                } else {
                    assert(before.contains(before[j]));
                }
            }
        }
        receiver
    }

    /// A new receiver on the channel of `key`, which is the key of `T`; the
    /// channel is made first where the key has none.
    fn subscribe_own<T: Clone + Send + Sync + 'static>(&mut self, key: TypeId) -> (receiver:
        Receiver<T>)
        requires
            old(self).wf(),
            is_key_of::<T>(key),
        ensures
            final(self).wf(),
            final(self).keys() == registered(old(self).keys(), key),
            final(self).keys().contains(key),
            old(self).channels().is_prefix_of(final(self).channels()),
            old(self).keys().contains(key) ==> final(self).channels() == old(self).channels(),
            final(self).gives(key, receiver),
    {
        proof {
            lemma_one_channel_per_key(self.keys(), key);
        }
        match self.find(&key) {
            Some(i) => {
                assert(self.made_for_at(i as int) == self.keys()[i as int]);
                let attached = attach::<T>(&self.slots[i].handle);
                assert(self.slots@[i as int].key == key && hangs_on(
                    self.slots@[i as int].handle,
                    attached->0,
                ));
                attached.unwrap()
            },
            None => self.register::<T>(key),
        }
    }

    /// Sends `event` on the channel of `key`, which is the key of `T`, and
    /// hands back the number of receivers that its channel had. Where the key
    /// has no channel yet, one is made and the event is dropped.
    fn publish_own<T: Clone + Send + Sync + 'static>(&mut self, key: TypeId, event: T) -> (receivers:
        usize)
        requires
            old(self).wf(),
            is_key_of::<T>(key),
        ensures
            final(self).wf(),
            final(self).keys() == registered(old(self).keys(), key),
            final(self).keys().contains(key),
            old(self).channels().is_prefix_of(final(self).channels()),
            if old(self).keys().contains(key) {
                &&& final(self).channels() == old(self).channels()
                &&& old(self).carried(key, event, receivers)
            } else {
                receivers == 0
            },
    {
        proof {
            lemma_one_channel_per_key(self.keys(), key);
        }
        match self.find(&key) {
            Some(i) => {
                assert(self.made_for_at(i as int) == self.keys()[i as int]);
                let sent = send_on::<T>(&self.slots[i].handle, event);
                assert(self.slots@[i as int].key == key && sent_on(
                    self.slots@[i as int].handle,
                    event,
                    sent->0,
                ));
                sent.unwrap()
            },
            None => {
                let _unused = self.register::<T>(key);
                0
            },
        }
    }

    /// A new receiver on the channel registered under `key`; the channel is
    /// made first where the key has none.
    ///
    /// This is for a caller that holds a key. It succeeds exactly when
    /// `key` is the key of `T`; else the answer is `TypeMismatch` and
    /// nothing changes. On success the receiver hangs on the channel of
    /// `key`, which is registered then. No other channel is touched, and no
    /// key ever gets a second channel.
    pub fn subscribe_keyed<T: Clone + Send + Sync + 'static>(&mut self, key: TypeId) -> (r: Result<
        Receiver<T>,
        BusError,
    >)
        requires
            old(self).wf(),
        ensures
            has_one_key::<T>(),
            final(self).wf(),
            r is Ok <==> key == key_of::<T>(),
            r matches Ok(receiver) ==> {
                &&& final(self).keys() == registered(old(self).keys(), key)
                &&& final(self).keys().contains(key)
                &&& old(self).keys().contains(key) ==> final(self).channels() == old(self).channels()
                &&& final(self).gives(key, receiver)
            },
            r is Err ==> final(self).channels() == old(self).channels(),
            old(self).channels().is_prefix_of(final(self).channels()),
    {
        let own = own_key::<T>();
        if same_key(&key, &own) {
            Ok(self.subscribe_own::<T>(key))
        } else {
            Err(BusError::TypeMismatch)
        }
    }

    /// Sends `event` on the channel registered under `key` and hands back
    /// the number of receivers that its channel had when it was sent.
    ///
    /// This is for a caller that holds a key. It succeeds exactly when
    /// `key` is the key of `T`; else the answer is `TypeMismatch` and
    /// nothing changes. Where the key has a channel, the event is sent on
    /// it, once, and the answer is the channel's. Where it has none, one is
    /// made and the event is dropped: nobody can have subscribed, so the
    /// answer is `Ok(0)`, and whoever subscribes later does not see this
    /// event. No other channel is touched.
    pub fn publish_keyed<T: Clone + Send + Sync + 'static>(&mut self, key: TypeId, event: T) -> (r:
        Result<usize, BusError>)
        requires
            old(self).wf(),
        ensures
            has_one_key::<T>(),
            final(self).wf(),
            r is Ok <==> key == key_of::<T>(),
            r matches Ok(receivers) ==> {
                &&& final(self).keys() == registered(old(self).keys(), key)
                &&& final(self).keys().contains(key)
                &&& if old(self).keys().contains(key) {
                    &&& final(self).channels() == old(self).channels()
                    &&& old(self).carried(key, event, receivers)
                } else {
                    receivers == 0
                }
            },
            r is Err ==> final(self).channels() == old(self).channels(),
            old(self).channels().is_prefix_of(final(self).channels()),
    {
        let own = own_key::<T>();
        if same_key(&key, &own) {
            Ok(self.publish_own::<T>(key, event))
        } else {
            Err(BusError::TypeMismatch)
        }
    }

    /// A new receiver for the events of type `T`: a new receiver on the
    /// channel of the key of `T`, which is made first where the key has
    /// none.
    ///
    /// A type has one key, so that a second subscription finds the channel
    /// of the first and leaves the registry as it is. No other channel is
    /// touched.
    pub fn subscribe<T: Clone + Send + Sync + 'static>(&mut self) -> (receiver: Receiver<T>)
        requires
            old(self).wf(),
        ensures
            has_one_key::<T>(),
            subscribed(*old(self), *final(self), receiver),
    {
        let key = type_key::<T>();
        assert(is_key_of::<T>(key));
        self.subscribe_keyed::<T>(key).unwrap()
    }

    /// Sends `event` on the channel of the key of `T`, and hands back the
    /// number of receivers that the channel had for it.
    ///
    /// Where the key has a channel, the event is sent on it, once, and the
    /// answer is the channel's; the registry stays as it is. Where it has
    /// none, one is made and the event is dropped: nobody can have
    /// subscribed, so the answer is 0, and whoever subscribes later does not
    /// get this event. No other channel is touched.
    pub fn publish<T: Clone + Send + Sync + 'static>(&mut self, event: T) -> (receivers: usize)
        requires
            old(self).wf(),
        ensures
            has_one_key::<T>(),
            published(*old(self), *final(self), event, receivers),
    {
        let key = type_key::<T>();
        assert(is_key_of::<T>(key));
        self.publish_keyed::<T>(key, event).unwrap()
    }

    /// Whether events of type `T` have a channel: whether the key of `T` is
    /// registered.
    pub fn has_channel<T: 'static>(&self) -> (known: bool)
        ensures
            has_one_key::<T>(),
            known == self.keys().contains(key_of::<T>()),
    {
        let key = own_key::<T>();
        self.find(&key).is_some()
    }
}

/// What a subscription for the events of type `T` makes of a registry, and
/// what it hands out: the key of `T` is registered afterwards, with a new
/// channel behind the others where it was not known and with nothing
/// changed where it was, and the receiver hangs on the channel of that key.
pub open spec fn subscribed<T: Clone + Send + Sync + 'static>(
    before: Registry,
    after: Registry,
    receiver: Receiver<T>,
) -> bool {
    &&& after.wf()
    &&& after.keys() == registered(before.keys(), key_of::<T>())
    &&& after.keys().contains(key_of::<T>())
    &&& before.channels().is_prefix_of(after.channels())
    &&& before.keys().contains(key_of::<T>()) ==> after.channels() == before.channels()
    &&& after.gives(key_of::<T>(), receiver)
}

/// What the publication of `event` makes of a registry, and what it
/// answers: where the key of `T` has a channel, nothing changes and the
/// answer is that channel's answer to the event; where it has none, the key
/// is registered with a new channel behind the others, and the answer is 0.
pub open spec fn published<T: Clone + Send + Sync + 'static>(
    before: Registry,
    after: Registry,
    event: T,
    receivers: usize,
) -> bool {
    &&& after.wf()
    &&& after.keys() == registered(before.keys(), key_of::<T>())
    &&& after.keys().contains(key_of::<T>())
    &&& before.channels().is_prefix_of(after.channels())
    &&& if before.keys().contains(key_of::<T>()) {
        &&& after.channels() == before.channels()
        &&& before.carried(key_of::<T>(), event, receivers)
    } else {
        receivers == 0
    }
}

/// What the lock of a bus admits: well-formed registries.
pub struct RegistryInvariant;

impl RwLockPredicate<Registry> for RegistryInvariant {
    open spec fn inv(self, registry: Registry) -> bool {
        registry.wf()
    }
}

/// The bus: a registry that many threads share. Whoever holds the lock
/// finds the registry well-formed and leaves it so, however the calls of
/// the threads interleave: at no time does a key have two channels.
pub struct EventBus {
    subscribers: RwLock<Registry, RegistryInvariant>,
}

impl Default for EventBus {
    /// A bus without channels: its lock is made around a registry that
    /// holds none.
    fn default() -> (bus: EventBus)
        ensures
            exists|registry: Registry|
                #[trigger] bus.made_around(registry) && registry.wf() && registry.keys()
                    == Seq::<TypeId>::empty(),
    {
        let registry = Registry::new();
        let ghost first = registry;
        let bus = EventBus { subscribers: RwLock::new(registry, Ghost(RegistryInvariant)) };
        assert(bus.made_around(first));
        bus
    }
}

impl EventBus {
    /// Whether the lock of this bus was made around `registry`.
    pub closed spec fn made_around(&self, registry: Registry) -> bool {
        call_ensures(
            RwLock::<Registry, RegistryInvariant>::new,
            (registry, Ghost(RegistryInvariant)),
            self.subscribers,
        )
    }

    /// Whether the lock of this bus handed `registry` out to a writer, who
    /// alone holds it then.
    pub closed spec fn handed_out<'a>(&'a self, registry: Registry) -> bool {
        exists|lock: WriteHandle<'a, Registry, RegistryInvariant>|
            call_ensures(
                RwLock::<Registry, RegistryInvariant>::acquire_write,
                (&self.subscribers,),
                (registry, lock),
            )
    }

    /// Whether a writer gave `registry` back to the lock of this bus.
    pub closed spec fn taken_back<'a>(&'a self, registry: Registry) -> bool {
        exists|lock: WriteHandle<'a, Registry, RegistryInvariant>|
            lock.rwlock() == self.subscribers && call_ensures(
                WriteHandle::<'a, Registry, RegistryInvariant>::release_write,
                (lock, registry),
                (),
            )
    }

    /// Whether the lock of this bus let a reader look at `registry`.
    pub closed spec fn shown<'a>(&'a self, registry: Registry) -> bool {
        exists|lock: ReadHandle<'a, Registry, RegistryInvariant>|
            lock.view() == registry && call_ensures(
                RwLock::<Registry, RegistryInvariant>::acquire_read,
                (&self.subscribers,),
                lock,
            )
    }

    /// A new receiver for the events of type `T`, which gets what is
    /// published from now on.
    ///
    /// The call takes the registry from the lock, subscribes on it as
    /// [`Registry::subscribe`] does, and gives it back: the receiver hangs
    /// on the channel that the registry of this bus holds for `T`.
    pub fn subscribe<T: Clone + Send + Sync + 'static>(&self) -> (receiver: Receiver<T>)
        ensures
            has_one_key::<T>(),
            exists|before: Registry, after: Registry|
                #![trigger self.handed_out(before), self.taken_back(after)]
                self.handed_out(before) && self.taken_back(after) && before.wf() && subscribed(
                    before,
                    after,
                    receiver,
                ),
    {
        let (mut registry, lock) = self.subscribers.acquire_write();
        let ghost before = registry;
        assert(self.handed_out(before));
        let receiver = registry.subscribe::<T>();
        let ghost after = registry;
        lock.release_write(registry);
        assert(self.taken_back(after));
        receiver
    }

    /// Sends `event` to the receivers of type `T` and hands back how many
    /// the channel had for it.
    ///
    /// The call takes the registry from the lock, publishes on it as
    /// [`Registry::publish`] does, and gives it back: the event is sent on
    /// the channel that the registry of this bus holds for `T`, and where it
    /// held none, one is made and the answer is 0.
    pub fn publish<T: Clone + Send + Sync + 'static>(&self, event: T) -> (receivers: usize)
        ensures
            has_one_key::<T>(),
            exists|before: Registry, after: Registry|
                #![trigger self.handed_out(before), self.taken_back(after)]
                self.handed_out(before) && self.taken_back(after) && before.wf() && published(
                    before,
                    after,
                    event,
                    receivers,
                ),
    {
        let (mut registry, lock) = self.subscribers.acquire_write();
        let ghost before = registry;
        assert(self.handed_out(before));
        let receivers = registry.publish::<T>(event);
        let ghost after = registry;
        lock.release_write(registry);
        assert(self.taken_back(after));
        receivers
    }

    /// The number of channels at the time of the call: that of the registry
    /// that the lock showed. Other threads may register channels before and
    /// after.
    pub fn channel_count(&self) -> (n: usize)
        ensures
            exists|registry: Registry|
                #[trigger] self.shown(registry) && registry.wf() && n == registry.keys().len(),
    {
        let lock = self.subscribers.acquire_read();
        assert(self.shown(lock.view()));
        let n = lock.borrow().len();
        lock.release_read();
        n
    }

    /// Whether events of type `T` have a channel at the time of the call:
    /// whether the key of `T` is registered in the registry that the lock
    /// showed. Other threads may register channels before and after.
    pub fn has_channel<T: 'static>(&self) -> (known: bool)
        ensures
            has_one_key::<T>(),
            exists|registry: Registry|
                #[trigger] self.shown(registry) && registry.wf() && known
                    == registry.keys().contains(key_of::<T>()),
    {
        let lock = self.subscribers.acquire_read();
        assert(self.shown(lock.view()));
        let known = lock.borrow().has_channel::<T>();
        lock.release_read();
        known
    }
}

/// Looking a key up twice registers it once: the second time changes
/// nothing, and the key has exactly one channel.
pub proof fn lemma_one_channel_per_key(keys: Seq<TypeId>, key: TypeId)
    requires
        keys.no_duplicates(),
    ensures
        registered(keys, key).no_duplicates(),
        registered(keys, key).contains(key),
        registered(registered(keys, key), key) == registered(keys, key),
        channels_for(registered(keys, key), key) == 1,
{
    let after = registered(keys, key);
    if !keys.contains(key) {
        assert(after[keys.len() as int] == key);
        assert forall|i: int, j: int| 0 <= i < after.len() && 0 <= j < after.len() && i != j implies after[i]
            != after[j] by {
            if i < keys.len() && j < keys.len() {
            } else if i < keys.len() {
                assert(keys.contains(keys[i]));
            } else {
                assert(keys.contains(keys[j]));
            }
        }
    }
    lemma_count_of_present(after, key);
}

/// The keys after a run of calls: each call looks its key up or registers
/// it, one call after the other, as the lock of a bus lets them through.
pub open spec fn registered_all(keys: Seq<TypeId>, calls: Seq<TypeId>) -> Seq<TypeId>
    decreases calls.len(),
{
    if calls.len() == 0 {
        keys
    } else {
        registered(registered_all(keys, calls.drop_last()), calls.last())
    }
}

/// However many calls are made for a key, and whatever other calls come in
/// between, the key has one channel afterwards and no key has two. Calls
/// for one key alone, none of them the first ever, leave the registry as it
/// is; where the key was not known, they add one channel, not one each.
pub proof fn lemma_many_calls_one_channel(keys: Seq<TypeId>, calls: Seq<TypeId>, key: TypeId)
    requires
        keys.no_duplicates(),
    ensures
        registered_all(keys, calls).no_duplicates(),
        keys.is_prefix_of(registered_all(keys, calls)),
        calls.contains(key) || keys.contains(key) ==> registered_all(keys, calls).contains(key)
            && channels_for(registered_all(keys, calls), key) == 1,
        (forall|i: int| 0 <= i < calls.len() ==> calls[i] == key) ==> registered_all(keys, calls)
            == if calls.len() == 0 {
            keys
        } else {
            registered(keys, key)
        },
    decreases calls.len(),
{
    if calls.len() == 0 {
        if keys.contains(key) {
            lemma_count_of_present(keys, key);
        }
    } else {
        let earlier = calls.drop_last();
        let before = registered_all(keys, earlier);
        lemma_many_calls_one_channel(keys, earlier, key);
        lemma_one_channel_per_key(before, calls.last());
        lemma_channels_stay(before, calls.last());
        let after = registered_all(keys, calls);
        if calls.contains(key) || keys.contains(key) {
            if calls.last() == key {
            } else {
                if calls.contains(key) {
                    let i = choose|i: int| 0 <= i < calls.len() && calls[i] == key;
                    assert(earlier[i] == key);
                }
                assert(before.contains(key));
                assert(after.contains(key));
            }
            lemma_count_of_present(after, key);
        }
        if forall|i: int| 0 <= i < calls.len() ==> calls[i] == key {
            assert forall|i: int| 0 <= i < earlier.len() implies earlier[i] == key by {
                assert(earlier[i] == calls[i]);
            }
            assert(calls.last() == calls[calls.len() - 1]);
            lemma_one_channel_per_key(keys, key);
        }
    }
}

/// Channels are never removed and never change place: whatever is looked
/// up or registered, the channels that were there stay where they were.
pub proof fn lemma_channels_stay(keys: Seq<TypeId>, key: TypeId)
    ensures
        keys.is_prefix_of(registered(keys, key)),
        forall|known: TypeId| keys.contains(known) ==> registered(keys, key).contains(known),
{
    let after = registered(keys, key);
    assert forall|known: TypeId| keys.contains(known) implies after.contains(known) by {
        let i = choose|i: int| 0 <= i < keys.len() && keys[i] == known;
        assert(after[i] == known);
    }
}

/// In a sequence without repetition, a key that occurs occurs once.
proof fn lemma_count_of_present(keys: Seq<TypeId>, key: TypeId)
    requires
        keys.no_duplicates(),
        keys.contains(key),
    ensures
        channels_for(keys, key) == 1,
    decreases keys.len(),
{
    reveal(Seq::filter);
    let same = |k: TypeId| k == key;
    let front = keys.drop_last();
    assert(keys.len() > 0);
    assert forall|i: int, j: int| 0 <= i < front.len() && 0 <= j < front.len() && i != j implies front[i]
        != front[j] by {
        assert(front[i] == keys[i] && front[j] == keys[j]);
    }
    if keys.last() == key {
        lemma_count_of_absent(front, key);
    } else {
        let i = choose|i: int| 0 <= i < keys.len() && keys[i] == key;
        assert(front[i] == key);
        lemma_count_of_present(front, key);
    }
}

/// A key that does not occur has no channel.
proof fn lemma_count_of_absent(keys: Seq<TypeId>, key: TypeId)
    requires
        !keys.contains(key),
    ensures
        channels_for(keys, key) == 0,
    decreases keys.len(),
{
    reveal(Seq::filter);
    if keys.len() > 0 {
        let front = keys.drop_last();
        assert(keys.last() == keys[keys.len() - 1]);
        assert forall|i: int| 0 <= i < front.len() implies front[i] != key by {
            assert(front[i] == keys[i]);
        }
        lemma_count_of_absent(front, key);
    }
}

} // verus!
