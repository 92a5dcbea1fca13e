//! Broker topology, the publish path and the consume path.
//!
//! The broker itself is reached asynchronously by a driver; this module
//! holds everything that can be decided and proved about that exchange:
//! which declarations a message type's topology needs, what the broker's
//! state looks like after them, how a message is serialized and addressed
//! for publishing, and how a handler outcome is resolved into an
//! acknowledgment with bounded retry. The broker contract the core relies
//! on is modelled by [`BrokerModel`], and every operation here is proved
//! against it.

use core::marker::PhantomData;
use vstd::prelude::*;
use vstd::string::StringExecFns;
use crate::error::Error;
use crate::message::{MessageDe, MessageSer, OrderCreated};
use crate::processor::Processor;

verus! {

/// The exchange kinds the routing layer distinguishes.
#[derive(Debug, Clone, Copy, PartialEq, Eq, Structural)]
pub enum AmqpExchangeType {
    Direct,
    Topic,
    Fanout,
    Headers,
}

/// Per message type, the constant routing triple.
#[derive(Debug, Clone)]
pub struct RoutingDescriptor {
    pub exchange: String,
    pub exchange_type: AmqpExchangeType,
    pub routing_key: String,
}

/// Trait for routing a message type to the broker.
pub trait AmqpRouting {
    /// Exchange name.
    spec fn spec_exchange() -> Seq<char>;

    /// Exchange type.
    spec fn spec_exchange_type() -> AmqpExchangeType;

    /// Routing key.
    spec fn spec_routing_key() -> Seq<char>;

    /// The routing triple as a value.
    fn routing() -> (r: RoutingDescriptor)
        ensures
            r.exchange@ == Self::spec_exchange(),
            r.exchange_type == Self::spec_exchange_type(),
            r.routing_key@ == Self::spec_routing_key(),
    ;
}

/// A declared exchange: name, kind, durability.
#[derive(Debug, Clone)]
pub struct ExchangeDecl {
    pub name: String,
    pub exchange_type: AmqpExchangeType,
    pub durable: bool,
}

/// What a declared exchange is mathematically.
pub ghost struct ExchangeDeclView {
    pub name: Seq<char>,
    pub exchange_type: AmqpExchangeType,
    pub durable: bool,
}

impl View for ExchangeDecl {
    type V = ExchangeDeclView;

    open spec fn view(&self) -> ExchangeDeclView {
        ExchangeDeclView {
            name: self.name@,
            exchange_type: self.exchange_type,
            durable: self.durable,
        }
    }
}

/// A queue bound to an exchange under a routing key.
#[derive(Debug, Clone)]
pub struct QueueBinding {
    pub queue: String,
    pub exchange: String,
    pub routing_key: String,
}

/// What a binding is mathematically.
pub ghost struct QueueBindingView {
    pub queue: Seq<char>,
    pub exchange: Seq<char>,
    pub routing_key: Seq<char>,
}

impl View for QueueBinding {
    type V = QueueBindingView;

    open spec fn view(&self) -> QueueBindingView {
        QueueBindingView {
            queue: self.queue@,
            exchange: self.exchange@,
            routing_key: self.routing_key@,
        }
    }
}

/// A message sitting in a queue, not yet acknowledged.
#[derive(Debug, Clone)]
pub struct Delivery {
    /// Broker-assigned identifier, to be used exactly once to ack or nack.
    pub tag: u64,
    pub queue: String,
    pub payload: Vec<u8>,
}

/// What a pending delivery is mathematically.
pub ghost struct DeliveryView {
    pub tag: u64,
    pub queue: Seq<char>,
    pub payload: Seq<u8>,
}

impl View for Delivery {
    type V = DeliveryView;

    open spec fn view(&self) -> DeliveryView {
        DeliveryView { tag: self.tag, queue: self.queue@, payload: self.payload@ }
    }
}

/// One acknowledgment the broker has accepted: positive (ack) or negative
/// (nack) with its requeue flag.
#[derive(Debug, Clone, Copy, PartialEq, Eq, Structural)]
pub struct AckRecord {
    pub tag: u64,
    pub positive: bool,
    pub requeue: bool,
}

/// The broker state the core relies on, mathematically: declared topology,
/// pending deliveries, accepted acknowledgments.
pub ghost struct BrokerView {
    pub exchanges: Seq<ExchangeDeclView>,
    pub queues: Seq<Seq<char>>,
    pub bindings: Seq<QueueBindingView>,
    pub deliveries: Seq<DeliveryView>,
    pub acks: Seq<AckRecord>,
    pub confirms_enabled: bool,
    pub next_tag: u64,
    pub ack_failures_left: u32,
}

/// Some exchange in `s` has this name.
pub open spec fn has_exchange(s: Seq<ExchangeDeclView>, name: Seq<char>) -> bool {
    exists|i: int| 0 <= i < s.len() && #[trigger] s[i].name == name
}

/// Some exchange in `s` has the same name as `d` but different parameters.
pub open spec fn has_exchange_conflict(s: Seq<ExchangeDeclView>, d: ExchangeDeclView) -> bool {
    exists|i: int| 0 <= i < s.len() && #[trigger] s[i].name == d.name && s[i] != d
}

/// Some queue in `s` has this name.
pub open spec fn has_queue(s: Seq<Seq<char>>, name: Seq<char>) -> bool {
    exists|i: int| 0 <= i < s.len() && #[trigger] s[i] == name
}

/// The binding is already present in `s`.
pub open spec fn has_binding(s: Seq<QueueBindingView>, b: QueueBindingView) -> bool {
    exists|i: int| 0 <= i < s.len() && #[trigger] s[i] == b
}

/// No two exchanges in `s` share a name.
pub open spec fn distinct_exchange_names(s: Seq<ExchangeDeclView>) -> bool {
    forall|i: int, j: int|
        0 <= i < j < s.len() ==> #[trigger] s[i].name != #[trigger] s[j].name
}

/// No queue name repeats in `s`.
pub open spec fn distinct_queue_names(s: Seq<Seq<char>>) -> bool {
    forall|i: int, j: int| 0 <= i < j < s.len() ==> #[trigger] s[i] != #[trigger] s[j]
}

/// No binding repeats in `s`.
pub open spec fn distinct_bindings(s: Seq<QueueBindingView>) -> bool {
    forall|i: int, j: int| 0 <= i < j < s.len() ==> #[trigger] s[i] != #[trigger] s[j]
}

impl BrokerView {
    /// Well-formedness: exchange names, queue names and bindings are free
    /// of duplicates, as the broker keeps them.
    pub open spec fn inv(self) -> bool {
        &&& distinct_exchange_names(self.exchanges)
        &&& distinct_queue_names(self.queues)
        &&& distinct_bindings(self.bindings)
    }

    /// Everything of `other` but the exchanges equals `self`: used to say
    /// an operation touched the exchange declarations alone.
    pub open spec fn same_except_exchanges(self, other: BrokerView) -> bool {
        &&& other.queues == self.queues
        &&& other.bindings == self.bindings
        &&& other.deliveries == self.deliveries
        &&& other.acks == self.acks
        &&& other.confirms_enabled == self.confirms_enabled
        &&& other.next_tag == self.next_tag
        &&& other.ack_failures_left == self.ack_failures_left
    }
}

proof fn lemma_distinct_exchange_push(s: Seq<ExchangeDeclView>, d: ExchangeDeclView)
    requires
        distinct_exchange_names(s),
        !has_exchange(s, d.name),
    ensures
        distinct_exchange_names(s.push(d)),
{
    let s2 = s.push(d);
    assert forall|i: int, j: int| 0 <= i < j < s2.len() implies #[trigger] s2[i].name
        != #[trigger] s2[j].name by {
        if j < s.len() {
            assert(s[i].name != s[j].name);
        } else {
            if s2[i].name == d.name {
                assert(s[i].name == d.name);
                assert(has_exchange(s, d.name));
            }
        }
    }
}

proof fn lemma_distinct_queue_push(s: Seq<Seq<char>>, q: Seq<char>)
    requires
        distinct_queue_names(s),
        !has_queue(s, q),
    ensures
        distinct_queue_names(s.push(q)),
{
    let s2 = s.push(q);
    assert forall|i: int, j: int| 0 <= i < j < s2.len() implies #[trigger] s2[i]
        != #[trigger] s2[j] by {
        if j < s.len() {
            assert(s[i] != s[j]);
        } else {
            if s2[i] == q {
                assert(s[i] == q);
                assert(has_queue(s, q));
            }
        }
    }
}

proof fn lemma_distinct_binding_push(s: Seq<QueueBindingView>, b: QueueBindingView)
    requires
        distinct_bindings(s),
        !has_binding(s, b),
    ensures
        distinct_bindings(s.push(b)),
{
    let s2 = s.push(b);
    assert forall|i: int, j: int| 0 <= i < j < s2.len() implies #[trigger] s2[i]
        != #[trigger] s2[j] by {
        if j < s.len() {
            assert(s[i] != s[j]);
        } else {
            if s2[i] == b {
                assert(s[i] == b);
                assert(has_binding(s, b));
            }
        }
    }
}

/// A model of the broker the contracts are stated against. It doubles as an
/// in-memory broker for exercising the core end to end; a seam for injected
/// acknowledgment failures covers the bounded-retry behaviour.
pub struct BrokerModel {
    pub exchanges: Vec<ExchangeDecl>,
    pub queues: Vec<String>,
    pub bindings: Vec<QueueBinding>,
    pub deliveries: Vec<Delivery>,
    pub acks: Vec<AckRecord>,
    pub confirms_enabled: bool,
    pub next_tag: u64,
    /// Number of acknowledgment calls that will still fail.
    pub ack_failures_left: u32,
}

/// The views of a sequence of exchange declarations.
pub open spec fn exchanges_view(s: Seq<ExchangeDecl>) -> Seq<ExchangeDeclView> {
    s.map_values(|e: ExchangeDecl| e@)
}

/// The views of a sequence of queue names.
pub open spec fn queues_view(s: Seq<String>) -> Seq<Seq<char>> {
    s.map_values(|q: String| q@)
}

/// The views of a sequence of bindings.
pub open spec fn bindings_view(s: Seq<QueueBinding>) -> Seq<QueueBindingView> {
    s.map_values(|b: QueueBinding| b@)
}

/// The views of a sequence of deliveries.
pub open spec fn deliveries_view(s: Seq<Delivery>) -> Seq<DeliveryView> {
    s.map_values(|d: Delivery| d@)
}

impl View for BrokerModel {
    type V = BrokerView;

    open spec fn view(&self) -> BrokerView {
        BrokerView {
            exchanges: exchanges_view(self.exchanges@),
            queues: queues_view(self.queues@),
            bindings: bindings_view(self.bindings@),
            deliveries: deliveries_view(self.deliveries@),
            acks: self.acks@,
            confirms_enabled: self.confirms_enabled,
            next_tag: self.next_tag,
            ack_failures_left: self.ack_failures_left,
        }
    }
}

impl BrokerModel {
    /// A broker with nothing declared and nothing pending.
    pub fn new() -> (r: BrokerModel)
        ensures
            r@.inv(),
            r@.exchanges =~= Seq::<ExchangeDeclView>::empty(),
            r@.queues =~= Seq::<Seq<char>>::empty(),
            r@.bindings =~= Seq::<QueueBindingView>::empty(),
            r@.deliveries =~= Seq::<DeliveryView>::empty(),
            r@.acks =~= Seq::<AckRecord>::empty(),
            !r@.confirms_enabled,
            r@.next_tag == 1,
            r@.ack_failures_left == 0,
    {
        BrokerModel {
            exchanges: Vec::new(),
            queues: Vec::new(),
            bindings: Vec::new(),
            deliveries: Vec::new(),
            acks: Vec::new(),
            confirms_enabled: false,
            next_tag: 1,
            ack_failures_left: 0,
        }
    }

    /// Declare an exchange. A repeated declaration with identical
    /// parameters is a no-op; one with different parameters for the same
    /// name is refused by the broker; nothing else changes either way.
    pub fn exchange_declare(&mut self, decl: ExchangeDecl) -> (r: Result<(), Error>)
        requires
            old(self)@.inv(),
        ensures
            final(self)@.inv(),
            old(self)@.same_except_exchanges(final(self)@),
            has_exchange_conflict(old(self)@.exchanges, decl@) ==> {
                &&& (r matches Err(e) && e matches Error::AmqpError(_))
                &&& final(self)@.exchanges == old(self)@.exchanges
            },
            !has_exchange_conflict(old(self)@.exchanges, decl@) && has_exchange(
                old(self)@.exchanges,
                decl@.name,
            ) ==> {
                &&& r is Ok
                &&& final(self)@.exchanges == old(self)@.exchanges
            },
            !has_exchange(old(self)@.exchanges, decl@.name) ==> {
                &&& r is Ok
                &&& final(self)@.exchanges == old(self)@.exchanges.push(decl@)
            },
    {
        match self.find_exchange(&decl.name) {
            Some(i) => {
                let same = self.exchanges[i].exchange_type == decl.exchange_type
                    && self.exchanges[i].durable == decl.durable;
                proof {
                    assert forall|k: int|
                        0 <= k < self@.exchanges.len() && #[trigger] self@.exchanges[k].name
                            == decl@.name implies (self@.exchanges[k] == decl@) == same by {
                        if k < i as int {
                            assert(self@.exchanges[k].name != self@.exchanges[i as int].name);
                        } else if k > i as int {
                            assert(self@.exchanges[i as int].name != self@.exchanges[k].name);
                        }
                    }
                }
                if same {
                    Ok(())
                } else {
                    Err(
                        Error::AmqpError(
                            String::from_str("exchange redeclared with different parameters"),
                        ),
                    )
                }
            },
            None => {
                proof {
                    lemma_distinct_exchange_push(self@.exchanges, decl@);
                }
                self.exchanges.push(decl);
                proof {
                    assert(self@.exchanges =~= old(self)@.exchanges.push(decl@));
                }
                Ok(())
            },
        }
    }

    /// Index of the exchange with this name, if one has been declared.
    fn find_exchange(&self, name: &String) -> (r: Option<usize>)
        ensures
            match r {
                Some(i) => 0 <= i < self@.exchanges.len() && self@.exchanges[i as int].name
                    == name@ && self@.exchanges[i as int].exchange_type
                    == self.exchanges@[i as int].exchange_type && self@.exchanges[
                    i as int
                ].durable == self.exchanges@[i as int].durable,
                None => !has_exchange(self@.exchanges, name@),
            },
    {
        let n = self.exchanges.len();
        let mut i: usize = 0;
        while i < n
            invariant
                n == self.exchanges@.len(),
                0 <= i <= n,
                forall|j: int| 0 <= j < i ==> #[trigger] self@.exchanges[j].name != name@,
            decreases n - i,
        {
            if self.exchanges[i].name == *name {
                return Some(i);
            }
            i = i + 1;
        }
        None
    }

    /// Declare a durable, client-named queue. Idempotent.
    pub fn queue_declare(&mut self, name: String) -> (r: Result<(), Error>)
        requires
            old(self)@.inv(),
        ensures
            final(self)@.inv(),
            r is Ok,
            final(self)@.exchanges == old(self)@.exchanges,
            final(self)@.bindings == old(self)@.bindings,
            final(self)@.deliveries == old(self)@.deliveries,
            final(self)@.acks == old(self)@.acks,
            final(self)@.confirms_enabled == old(self)@.confirms_enabled,
            final(self)@.next_tag == old(self)@.next_tag,
            final(self)@.ack_failures_left == old(self)@.ack_failures_left,
            has_queue(old(self)@.queues, name@) ==> final(self)@.queues == old(self)@.queues,
            !has_queue(old(self)@.queues, name@) ==> final(self)@.queues == old(
                self,
            )@.queues.push(name@),
    {
        if self.queue_exists(&name) {
            Ok(())
        } else {
            proof {
                lemma_distinct_queue_push(self@.queues, name@);
            }
            self.queues.push(name);
            proof {
                assert(self@.queues =~= old(self)@.queues.push(name@));
            }
            Ok(())
        }
    }

    /// Bind a queue to an exchange under a routing key. The queue and the
    /// exchange must have been declared; rebinding the same triple is a
    /// no-op, so no duplicate binding ever arises.
    pub fn queue_bind(&mut self, binding: QueueBinding) -> (r: Result<(), Error>)
        requires
            old(self)@.inv(),
        ensures
            final(self)@.inv(),
            final(self)@.exchanges == old(self)@.exchanges,
            final(self)@.queues == old(self)@.queues,
            final(self)@.deliveries == old(self)@.deliveries,
            final(self)@.acks == old(self)@.acks,
            final(self)@.confirms_enabled == old(self)@.confirms_enabled,
            final(self)@.next_tag == old(self)@.next_tag,
            final(self)@.ack_failures_left == old(self)@.ack_failures_left,
            !(has_exchange(old(self)@.exchanges, binding@.exchange) && has_queue(
                old(self)@.queues,
                binding@.queue,
            )) ==> {
                &&& (r matches Err(e) && e matches Error::AmqpError(_))
                &&& final(self)@.bindings == old(self)@.bindings
            },
            has_exchange(old(self)@.exchanges, binding@.exchange) && has_queue(
                old(self)@.queues,
                binding@.queue,
            ) ==> {
                &&& r is Ok
                &&& (has_binding(old(self)@.bindings, binding@) ==> final(self)@.bindings == old(
                    self,
                )@.bindings)
                &&& (!has_binding(old(self)@.bindings, binding@) ==> final(self)@.bindings == old(
                    self,
                )@.bindings.push(binding@))
            },
    {
        if !self.exchange_exists(&binding.exchange) || !self.queue_exists(&binding.queue) {
            return Err(
                Error::AmqpError(String::from_str("binding names an unknown exchange or queue")),
            );
        }
        if self.binding_exists(&binding) {
            Ok(())
        } else {
            proof {
                lemma_distinct_binding_push(self@.bindings, binding@);
            }
            self.bindings.push(binding);
            proof {
                assert(self@.bindings =~= old(self)@.bindings.push(binding@));
            }
            Ok(())
        }
    }

    /// Whether this binding is already present.
    fn binding_exists(&self, binding: &QueueBinding) -> (r: bool)
        ensures
            r == has_binding(self@.bindings, binding@),
    {
        let n = self.bindings.len();
        let mut i: usize = 0;
        while i < n
            invariant
                n == self.bindings@.len(),
                0 <= i <= n,
                forall|j: int| 0 <= j < i ==> #[trigger] self@.bindings[j] != binding@,
            decreases n - i,
        {
            let same = self.bindings[i].queue == binding.queue && self.bindings[i].exchange
                == binding.exchange && self.bindings[i].routing_key == binding.routing_key;
            if same {
                proof {
                    assert(self@.bindings[i as int] == binding@);
                }
                return true;
            }
            i = i + 1;
        }
        false
    }

    /// Whether an exchange with this name has been declared.
    pub fn exchange_exists(&self, name: &String) -> (r: bool)
        ensures
            r == has_exchange(self@.exchanges, name@),
    {
        match self.find_exchange(name) {
            Some(_) => true,
            None => false,
        }
    }

    /// Whether a queue with this name has been declared.
    pub fn queue_exists(&self, name: &String) -> (r: bool)
        ensures
            r == has_queue(self@.queues, name@),
    {
        let n = self.queues.len();
        let mut i: usize = 0;
        while i < n
            invariant
                n == self.queues@.len(),
                0 <= i <= n,
                forall|j: int| 0 <= j < i ==> #[trigger] self@.queues[j] != name@,
            decreases n - i,
        {
            if self.queues[i] == *name {
                proof {
                    assert(self@.queues[i as int] == name@);
                }
                return true;
            }
            i = i + 1;
        }
        false
    }

    /// Enable publisher confirms on this channel.
    pub fn confirm_select(&mut self)
        requires
            old(self)@.inv(),
        ensures
            final(self)@.inv(),
            final(self)@.confirms_enabled,
            final(self)@.exchanges == old(self)@.exchanges,
            final(self)@.queues == old(self)@.queues,
            final(self)@.bindings == old(self)@.bindings,
            final(self)@.deliveries == old(self)@.deliveries,
            final(self)@.acks == old(self)@.acks,
            final(self)@.next_tag == old(self)@.next_tag,
            final(self)@.ack_failures_left == old(self)@.ack_failures_left,
    {
        self.confirms_enabled = true;
    }
}

/// Deliveries produced by publishing `payload` under `exchange` and `key`
/// against `bindings`, scanning from position `i` and tagging from `tag`:
/// one copy per binding whose exchange and routing key both match.
pub open spec fn spec_fanout(
    bindings: Seq<QueueBindingView>,
    i: int,
    exchange: Seq<char>,
    key: Seq<char>,
    payload: Seq<u8>,
    tag: int,
) -> Seq<DeliveryView>
    decreases bindings.len() - i,
    when 0 <= i <= bindings.len()
{
    if i >= bindings.len() {
        Seq::empty()
    } else if bindings[i].exchange == exchange && bindings[i].routing_key == key {
        seq![DeliveryView { tag: tag as u64, queue: bindings[i].queue, payload }] + spec_fanout(
            bindings,
            i + 1,
            exchange,
            key,
            payload,
            tag + 1,
        )
    } else {
        spec_fanout(bindings, i + 1, exchange, key, payload, tag)
    }
}

/// With a single binding that matches, a publish fans out to exactly one
/// delivery: that binding's queue, the published bytes intact.
pub proof fn lemma_single_binding_fanout(
    b: QueueBindingView,
    exchange: Seq<char>,
    key: Seq<char>,
    payload: Seq<u8>,
    tag: int,
)
    requires
        b.exchange == exchange,
        b.routing_key == key,
    ensures
        spec_fanout(seq![b], 0, exchange, key, payload, tag) =~= seq![
            (DeliveryView { tag: tag as u64, queue: b.queue, payload }),
        ],
{
    assert(spec_fanout(seq![b], 1, exchange, key, payload, tag + 1) =~= Seq::<
        DeliveryView,
    >::empty());
}

/// A verified byte-for-byte copy of a payload.
fn clone_bytes(v: &Vec<u8>) -> (r: Vec<u8>)
    ensures
        r@ == v@,
{
    let n = v.len();
    let mut out: Vec<u8> = Vec::new();
    let mut i: usize = 0;
    while i < n
        invariant
            n == v@.len(),
            0 <= i <= n,
            out@ == v@.subrange(0, i as int),
        decreases n - i,
    {
        out.push(v[i]);
        proof {
            assert(v@.subrange(0, i as int).push(v@[i as int]) =~= v@.subrange(0, i as int + 1));
        }
        i = i + 1;
    }
    proof {
        assert(v@.subrange(0, n as int) =~= v@);
    }
    out
}

/// The deliveries one publish produces, as values.
fn fanout_deliveries(
    bindings: &Vec<QueueBinding>,
    exchange: &String,
    routing_key: &String,
    payload: &Vec<u8>,
    tag0: u64,
) -> (r: Vec<Delivery>)
    requires
        tag0 + bindings@.len() <= u64::MAX,
    ensures
        deliveries_view(r@) == spec_fanout(
            bindings_view(bindings@),
            0,
            exchange@,
            routing_key@,
            payload@,
            tag0 as int,
        ),
        r@.len() <= bindings@.len(),
{
    let ghost bv = bindings_view(bindings@);
    let n = bindings.len();
    let mut out: Vec<Delivery> = Vec::new();
    let mut tag: u64 = tag0;
    let mut i: usize = 0;
    while i < n
        invariant
            n == bindings@.len(),
            bv == bindings_view(bindings@),
            tag0 + n <= u64::MAX,
            0 <= i <= n,
            out@.len() <= i,
            tag == tag0 + out@.len(),
            spec_fanout(bv, 0, exchange@, routing_key@, payload@, tag0 as int) == deliveries_view(
                out@,
            ) + spec_fanout(bv, i as int, exchange@, routing_key@, payload@, tag as int),
        decreases n - i,
    {
        let ghost pre_suffix = spec_fanout(
            bv,
            i as int,
            exchange@,
            routing_key@,
            payload@,
            tag as int,
        );
        let b = &bindings[i];
        let is_match = b.exchange == *exchange && b.routing_key == *routing_key;
        if is_match {
            let d = Delivery { tag, queue: b.queue.clone(), payload: clone_bytes(payload) };
            proof {
                assert(d@ == (DeliveryView { tag, queue: bv[i as int].queue, payload: payload@ }));
                assert(pre_suffix =~= seq![d@] + spec_fanout(
                    bv,
                    i as int + 1,
                    exchange@,
                    routing_key@,
                    payload@,
                    tag as int + 1,
                ));
                assert(deliveries_view(out@.push(d)) =~= deliveries_view(out@) + seq![d@]);
                assert(deliveries_view(out@) + pre_suffix =~= deliveries_view(out@.push(d))
                    + spec_fanout(
                    bv,
                    i as int + 1,
                    exchange@,
                    routing_key@,
                    payload@,
                    tag as int + 1,
                ));
            }
            out.push(d);
            tag = tag + 1;
        } else {
            proof {
                assert(pre_suffix == spec_fanout(
                    bv,
                    i as int + 1,
                    exchange@,
                    routing_key@,
                    payload@,
                    tag as int,
                ));
            }
        }
        i = i + 1;
    }
    proof {
        assert(spec_fanout(bv, n as int, exchange@, routing_key@, payload@, tag as int) =~= Seq::<
            DeliveryView,
        >::empty());
        assert(deliveries_view(out@) + Seq::<DeliveryView>::empty() =~= deliveries_view(out@));
    }
    out
}

impl BrokerModel {
    /// Publish a payload to an exchange under a routing key: every matching
    /// binding's queue receives a copy, each under a fresh delivery tag.
    /// The mandatory flag asks the broker to signal back when no queue is
    /// bound; consuming that signal is left to the driver.
    pub fn basic_publish(
        &mut self,
        exchange: &String,
        routing_key: &String,
        payload: Vec<u8>,
        mandatory: bool,
    ) -> (r: Result<(), Error>)
        requires
            old(self)@.inv(),
            old(self)@.next_tag + old(self)@.bindings.len() <= u64::MAX,
        ensures
            final(self)@.inv(),
            r is Ok,
            final(self)@.exchanges == old(self)@.exchanges,
            final(self)@.queues == old(self)@.queues,
            final(self)@.bindings == old(self)@.bindings,
            final(self)@.acks == old(self)@.acks,
            final(self)@.confirms_enabled == old(self)@.confirms_enabled,
            final(self)@.ack_failures_left == old(self)@.ack_failures_left,
            final(self)@.deliveries == old(self)@.deliveries + spec_fanout(
                old(self)@.bindings,
                0,
                exchange@,
                routing_key@,
                payload@,
                old(self)@.next_tag as int,
            ),
            final(self)@.next_tag == old(self)@.next_tag + spec_fanout(
                old(self)@.bindings,
                0,
                exchange@,
                routing_key@,
                payload@,
                old(self)@.next_tag as int,
            ).len(),
    {
        let _ = mandatory;
        let mut added = fanout_deliveries(
            &self.bindings,
            exchange,
            routing_key,
            &payload,
            self.next_tag,
        );
        let ghost added_view = added@;
        let count = added.len();
        self.next_tag = self.next_tag + (count as u64);
        self.deliveries.append(&mut added);
        proof {
            assert(deliveries_view(self.deliveries@) =~= deliveries_view(old(self).deliveries@)
                + deliveries_view(added_view));
        }
        Ok(())
    }

    /// Take the oldest pending delivery for a queue, if any.
    pub fn next_delivery(&mut self, queue: &String) -> (r: Option<Delivery>)
        requires
            old(self)@.inv(),
        ensures
            final(self)@.inv(),
            final(self)@.exchanges == old(self)@.exchanges,
            final(self)@.queues == old(self)@.queues,
            final(self)@.bindings == old(self)@.bindings,
            final(self)@.acks == old(self)@.acks,
            final(self)@.confirms_enabled == old(self)@.confirms_enabled,
            final(self)@.next_tag == old(self)@.next_tag,
            final(self)@.ack_failures_left == old(self)@.ack_failures_left,
            match r {
                Some(d) => exists|i: int|
                    {
                        &&& 0 <= i < old(self)@.deliveries.len()
                        &&& #[trigger] old(self)@.deliveries[i].queue == queue@
                        &&& d@ == old(self)@.deliveries[i]
                        &&& (forall|j: int|
                            0 <= j < i ==> #[trigger] old(self)@.deliveries[j].queue != queue@)
                        &&& final(self)@.deliveries == old(self)@.deliveries.remove(i)
                    },
                None => {
                    &&& final(self)@.deliveries == old(self)@.deliveries
                    &&& (forall|j: int|
                        0 <= j < old(self)@.deliveries.len() ==> #[trigger] old(
                            self,
                        )@.deliveries[j].queue != queue@)
                },
            },
    {
        match self.find_delivery(queue) {
            Some(i) => {
                let ghost w = i as int;
                let d = self.deliveries.remove(i);
                proof {
                    assert(deliveries_view(self.deliveries@) =~= deliveries_view(
                        old(self).deliveries@,
                    ).remove(w));
                    assert({
                        &&& 0 <= w < old(self)@.deliveries.len()
                        &&& old(self)@.deliveries[w].queue == queue@
                        &&& d@ == old(self)@.deliveries[w]
                        &&& (forall|j: int|
                            0 <= j < w ==> #[trigger] old(self)@.deliveries[j].queue != queue@)
                        &&& self@.deliveries == old(self)@.deliveries.remove(w)
                    });
                }
                Some(d)
            },
            None => None,
        }
    }

    /// Index of the oldest pending delivery for a queue.
    fn find_delivery(&self, queue: &String) -> (r: Option<usize>)
        ensures
            match r {
                Some(i) => {
                    &&& 0 <= i < self@.deliveries.len()
                    &&& self@.deliveries[i as int].queue == queue@
                    &&& (forall|j: int|
                        0 <= j < i ==> #[trigger] self@.deliveries[j].queue != queue@)
                },
                None => forall|j: int|
                    0 <= j < self@.deliveries.len() ==> #[trigger] self@.deliveries[j].queue
                        != queue@,
            },
    {
        let n = self.deliveries.len();
        let mut i: usize = 0;
        while i < n
            invariant
                n == self.deliveries@.len(),
                0 <= i <= n,
                forall|j: int| 0 <= j < i ==> #[trigger] self@.deliveries[j].queue != queue@,
            decreases n - i,
        {
            if self.deliveries[i].queue == *queue {
                return Some(i);
            }
            i = i + 1;
        }
        None
    }

    /// One positive acknowledgment attempt. The failure seam consumes one
    /// induced failure per attempt; with none left the broker accepts the
    /// ack and records it.
    pub fn basic_ack(&mut self, tag: u64) -> (r: Result<(), Error>)
        requires
            old(self)@.inv(),
        ensures
            final(self)@.inv(),
            final(self)@.exchanges == old(self)@.exchanges,
            final(self)@.queues == old(self)@.queues,
            final(self)@.bindings == old(self)@.bindings,
            final(self)@.deliveries == old(self)@.deliveries,
            final(self)@.confirms_enabled == old(self)@.confirms_enabled,
            final(self)@.next_tag == old(self)@.next_tag,
            old(self)@.ack_failures_left > 0 ==> {
                &&& (r matches Err(e) && e matches Error::AmqpError(_))
                &&& final(self)@.acks == old(self)@.acks
                &&& final(self)@.ack_failures_left == old(self)@.ack_failures_left - 1
            },
            old(self)@.ack_failures_left == 0 ==> {
                &&& r is Ok
                &&& final(self)@.acks == old(self)@.acks.push(
                    AckRecord { tag, positive: true, requeue: false },
                )
                &&& final(self)@.ack_failures_left == 0
            },
    {
        if self.ack_failures_left > 0 {
            self.ack_failures_left = self.ack_failures_left - 1;
            Err(Error::AmqpError(String::from_str("ack failed")))
        } else {
            self.acks.push(AckRecord { tag, positive: true, requeue: false });
            Ok(())
        }
    }

    /// One negative acknowledgment attempt, with its requeue flag, through
    /// the same failure seam.
    pub fn basic_nack(&mut self, tag: u64, requeue: bool) -> (r: Result<(), Error>)
        requires
            old(self)@.inv(),
        ensures
            final(self)@.inv(),
            final(self)@.exchanges == old(self)@.exchanges,
            final(self)@.queues == old(self)@.queues,
            final(self)@.bindings == old(self)@.bindings,
            final(self)@.deliveries == old(self)@.deliveries,
            final(self)@.confirms_enabled == old(self)@.confirms_enabled,
            final(self)@.next_tag == old(self)@.next_tag,
            old(self)@.ack_failures_left > 0 ==> {
                &&& (r matches Err(e) && e matches Error::AmqpError(_))
                &&& final(self)@.acks == old(self)@.acks
                &&& final(self)@.ack_failures_left == old(self)@.ack_failures_left - 1
            },
            old(self)@.ack_failures_left == 0 ==> {
                &&& r is Ok
                &&& final(self)@.acks == old(self)@.acks.push(
                    AckRecord { tag, positive: false, requeue },
                )
                &&& final(self)@.ack_failures_left == 0
            },
    {
        if self.ack_failures_left > 0 {
            self.ack_failures_left = self.ack_failures_left - 1;
            Err(Error::AmqpError(String::from_str("nack failed")))
        } else {
            self.acks.push(AckRecord { tag, positive: false, requeue });
            Ok(())
        }
    }

    /// Make the next `n` acknowledgment calls fail: the test seam for the
    /// bounded-retry behaviour.
    pub fn inject_ack_failures(&mut self, n: u32)
        requires
            old(self)@.inv(),
        ensures
            final(self)@.inv(),
            final(self)@.exchanges == old(self)@.exchanges,
            final(self)@.queues == old(self)@.queues,
            final(self)@.bindings == old(self)@.bindings,
            final(self)@.deliveries == old(self)@.deliveries,
            final(self)@.acks == old(self)@.acks,
            final(self)@.confirms_enabled == old(self)@.confirms_enabled,
            final(self)@.next_tag == old(self)@.next_tag,
            final(self)@.ack_failures_left == n,
    {
        self.ack_failures_left = n;
    }
}

/// How many times an acknowledgment is attempted before giving up.
pub const MAX_ACK_RETRIES: u32 = 5;

/// Ack a delivery with bounded retry: at most `max_retries` attempts, then
/// give up silently, leaving the delivery unacknowledged — the broker will
/// redeliver it once the channel is recycled. Nothing propagates out.
pub fn ack(broker: &mut BrokerModel, tag: u64, max_retries: u32)
    requires
        old(broker)@.inv(),
    ensures
        final(broker)@.inv(),
        final(broker)@.exchanges == old(broker)@.exchanges,
        final(broker)@.queues == old(broker)@.queues,
        final(broker)@.bindings == old(broker)@.bindings,
        final(broker)@.deliveries == old(broker)@.deliveries,
        final(broker)@.confirms_enabled == old(broker)@.confirms_enabled,
        final(broker)@.next_tag == old(broker)@.next_tag,
        old(broker)@.ack_failures_left < max_retries ==> {
            &&& final(broker)@.acks == old(broker)@.acks.push(
                AckRecord { tag, positive: true, requeue: false },
            )
            &&& final(broker)@.ack_failures_left == 0
        },
        old(broker)@.ack_failures_left >= max_retries ==> {
            &&& final(broker)@.acks == old(broker)@.acks
            &&& final(broker)@.ack_failures_left == old(broker)@.ack_failures_left - max_retries
        },
{
    let mut retries: u32 = 0;
    while retries < max_retries
        invariant
            broker@.inv(),
            0 <= retries <= max_retries,
            retries <= old(broker)@.ack_failures_left,
            broker@.ack_failures_left == old(broker)@.ack_failures_left - retries,
            broker@.acks == old(broker)@.acks,
            broker@.exchanges == old(broker)@.exchanges,
            broker@.queues == old(broker)@.queues,
            broker@.bindings == old(broker)@.bindings,
            broker@.deliveries == old(broker)@.deliveries,
            broker@.confirms_enabled == old(broker)@.confirms_enabled,
            broker@.next_tag == old(broker)@.next_tag,
        decreases max_retries - retries,
    {
        match broker.basic_ack(tag) {
            Ok(_) => {
                return ;
            },
            Err(_) => {
                retries = retries + 1;
            },
        }
    }
}

/// Nack a delivery with bounded retry, giving up silently like [`ack`].
pub fn nack(broker: &mut BrokerModel, tag: u64, requeue: bool, max_retries: u32)
    requires
        old(broker)@.inv(),
    ensures
        final(broker)@.inv(),
        final(broker)@.exchanges == old(broker)@.exchanges,
        final(broker)@.queues == old(broker)@.queues,
        final(broker)@.bindings == old(broker)@.bindings,
        final(broker)@.deliveries == old(broker)@.deliveries,
        final(broker)@.confirms_enabled == old(broker)@.confirms_enabled,
        final(broker)@.next_tag == old(broker)@.next_tag,
        old(broker)@.ack_failures_left < max_retries ==> {
            &&& final(broker)@.acks == old(broker)@.acks.push(
                AckRecord { tag, positive: false, requeue },
            )
            &&& final(broker)@.ack_failures_left == 0
        },
        old(broker)@.ack_failures_left >= max_retries ==> {
            &&& final(broker)@.acks == old(broker)@.acks
            &&& final(broker)@.ack_failures_left == old(broker)@.ack_failures_left - max_retries
        },
{
    let mut retries: u32 = 0;
    while retries < max_retries
        invariant
            broker@.inv(),
            0 <= retries <= max_retries,
            retries <= old(broker)@.ack_failures_left,
            broker@.ack_failures_left == old(broker)@.ack_failures_left - retries,
            broker@.acks == old(broker)@.acks,
            broker@.exchanges == old(broker)@.exchanges,
            broker@.queues == old(broker)@.queues,
            broker@.bindings == old(broker)@.bindings,
            broker@.deliveries == old(broker)@.deliveries,
            broker@.confirms_enabled == old(broker)@.confirms_enabled,
            broker@.next_tag == old(broker)@.next_tag,
        decreases max_retries - retries,
    {
        match broker.basic_nack(tag, requeue) {
            Ok(_) => {
                return ;
            },
            Err(_) => {
                retries = retries + 1;
            },
        }
    }
}

/// What the consume path does with a delivery once its handler has
/// finished.
#[derive(Debug, Clone, Copy, PartialEq, Eq, Structural)]
pub enum AckAction {
    /// Acknowledge: the unit of work is complete, or retrying is futile.
    Ack,
    /// Negatively acknowledge and requeue: the failure is assumed
    /// transient.
    NackRequeue,
    /// Neither ack nor nack: the channel itself may be unusable; rely on
    /// broker-side redelivery.
    Dropped,
}

/// The acknowledgment policy, keyed on the handler outcome.
pub open spec fn spec_ack_action(outcome: Result<(), Error>) -> AckAction {
    match outcome {
        Ok(_) => AckAction::Ack,
        Err(e) => match e {
            Error::DatabaseError(_) => AckAction::NackRequeue,
            Error::RedisError(_) => AckAction::NackRequeue,
            Error::Io(_) => AckAction::NackRequeue,
            Error::AmqpError(_) => AckAction::Dropped,
            Error::SerializeError(_) => AckAction::Ack,
            Error::DeserializeError(_) => AckAction::Ack,
            Error::BusinessPanic(_) => AckAction::Ack,
            Error::PermissionsDenied => AckAction::Ack,
            Error::InvalidInput => AckAction::Ack,
            Error::NotFound => AckAction::Ack,
        },
    }
}

/// The acknowledgment decision for a handler outcome.
pub fn ack_decision(outcome: &Result<(), Error>) -> (r: AckAction)
    ensures
        r == spec_ack_action(*outcome),
{
    match outcome {
        Ok(_) => AckAction::Ack,
        Err(e) => match e {
            Error::DatabaseError(_) => AckAction::NackRequeue,
            Error::RedisError(_) => AckAction::NackRequeue,
            Error::Io(_) => AckAction::NackRequeue,
            Error::AmqpError(_) => AckAction::Dropped,
            Error::SerializeError(_) => AckAction::Ack,
            Error::DeserializeError(_) => AckAction::Ack,
            Error::BusinessPanic(_) => AckAction::Ack,
            Error::PermissionsDenied => AckAction::Ack,
            Error::InvalidInput => AckAction::Ack,
            Error::NotFound => AckAction::Ack,
        },
    }
}

/// The acknowledgment policy in full: success is acked; malformed payloads,
/// business rejections and permission, input and existence failures are
/// acked because retrying cannot help; database, key-value-store and I/O
/// failures are nacked with requeue as transient; a transport failure
/// leaves the delivery unacknowledged. The policy is a function of the
/// outcome alone, so the same failing handler always yields the same
/// action.
pub proof fn lemma_ack_policy(e: Error)
    ensures
        spec_ack_action(Ok(())) == AckAction::Ack,
        (e matches Error::SerializeError(_) || e matches Error::DeserializeError(_)
            || e matches Error::BusinessPanic(_) || e is PermissionsDenied || e is InvalidInput
            || e is NotFound) ==> spec_ack_action(Err(e)) == AckAction::Ack,
        (e matches Error::DatabaseError(_) || e matches Error::RedisError(_) || e matches
            Error::Io(_)) ==> spec_ack_action(Err(e)) == AckAction::NackRequeue,
        e matches Error::AmqpError(_) ==> spec_ack_action(Err(e)) == AckAction::Dropped,
{
}

/// Resolve a handler outcome for one delivery: decide the action by the
/// acknowledgment policy and perform it against the broker with bounded
/// retry. A dropped delivery touches the broker not at all.
pub fn resolve_delivery(broker: &mut BrokerModel, tag: u64, outcome: &Result<(), Error>) -> (r:
    AckAction)
    requires
        old(broker)@.inv(),
    ensures
        final(broker)@.inv(),
        r == spec_ack_action(*outcome),
        final(broker)@.exchanges == old(broker)@.exchanges,
        final(broker)@.queues == old(broker)@.queues,
        final(broker)@.bindings == old(broker)@.bindings,
        final(broker)@.deliveries == old(broker)@.deliveries,
        final(broker)@.confirms_enabled == old(broker)@.confirms_enabled,
        final(broker)@.next_tag == old(broker)@.next_tag,
        r == AckAction::Dropped ==> {
            &&& final(broker)@.acks == old(broker)@.acks
            &&& final(broker)@.ack_failures_left == old(broker)@.ack_failures_left
        },
        r != AckAction::Dropped && old(broker)@.ack_failures_left < MAX_ACK_RETRIES ==> {
            &&& final(broker)@.acks == old(broker)@.acks.push(
                AckRecord {
                    tag,
                    positive: r == AckAction::Ack,
                    requeue: r == AckAction::NackRequeue,
                },
            )
            &&& final(broker)@.ack_failures_left == 0
        },
        r != AckAction::Dropped && old(broker)@.ack_failures_left >= MAX_ACK_RETRIES ==> {
            &&& final(broker)@.acks == old(broker)@.acks
            &&& final(broker)@.ack_failures_left == old(broker)@.ack_failures_left
                - MAX_ACK_RETRIES
        },
{
    let action = ack_decision(outcome);
    match action {
        AckAction::Ack => {
            ack(broker, tag, MAX_ACK_RETRIES);
        },
        AckAction::NackRequeue => {
            nack(broker, tag, true, MAX_ACK_RETRIES);
        },
        AckAction::Dropped => {},
    }
    action
}

/// Trait for sending a message type to the broker: routable and encodable.
pub trait AmqpMessageSend: AmqpRouting + MessageSer {

}

/// Trait for consuming a message type: the handler seam together with the
/// consumer's queue name. Business logic implements it.
pub trait AmqpMessageProcessor<M>: Processor<M, Result<(), Error>> {
    /// Queue name, as a mathematical value.
    spec fn spec_queue() -> Seq<char>;

    /// Queue name.
    fn queue() -> (r: String)
        ensures
            r@ == Self::spec_queue(),
    ;
}

/// Declare the exchange of message type `M`, durable, with its configured
/// kind. Idempotent: an identical repeated declaration is a no-op; a
/// declaration conflicting with an earlier one is refused by the broker.
pub fn ensure_exchange<M: AmqpRouting>(broker: &mut BrokerModel) -> (r: Result<(), Error>)
    requires
        old(broker)@.inv(),
    ensures
        final(broker)@.inv(),
        old(broker)@.same_except_exchanges(final(broker)@),
        ({
            let d = ExchangeDeclView {
                name: M::spec_exchange(),
                exchange_type: M::spec_exchange_type(),
                durable: true,
            };
            &&& (has_exchange_conflict(old(broker)@.exchanges, d) ==> (r matches Err(e)
                && e matches Error::AmqpError(_)) && final(broker)@.exchanges == old(
                broker,
            )@.exchanges)
            &&& (!has_exchange_conflict(old(broker)@.exchanges, d) ==> r is Ok)
            &&& (!has_exchange_conflict(old(broker)@.exchanges, d) && has_exchange(
                old(broker)@.exchanges,
                d.name,
            ) ==> final(broker)@.exchanges == old(broker)@.exchanges)
            &&& (!has_exchange(old(broker)@.exchanges, d.name) ==> final(broker)@.exchanges == old(
                broker,
            )@.exchanges.push(d))
            &&& (!has_exchange_conflict(old(broker)@.exchanges, d) ==> has_exchange(
                final(broker)@.exchanges,
                d.name,
            ) && !has_exchange_conflict(final(broker)@.exchanges, d))
        }),
{
    let rd = M::routing();
    let r = broker.exchange_declare(
        ExchangeDecl { name: rd.exchange, exchange_type: rd.exchange_type, durable: true },
    );
    proof {
        let d = ExchangeDeclView {
            name: M::spec_exchange(),
            exchange_type: M::spec_exchange_type(),
            durable: true,
        };
        if !has_exchange_conflict(old(broker)@.exchanges, d) {
            if !has_exchange(old(broker)@.exchanges, d.name) {
                lemma_exchange_declare_idempotent(old(broker)@.exchanges, d);
            } else {
                assert forall|i: int|
                    0 <= i < broker@.exchanges.len() && #[trigger] broker@.exchanges[i].name
                        == d.name implies broker@.exchanges[i] == d by {
                    assert(!has_exchange_conflict(old(broker)@.exchanges, d));
                }
            }
        }
    }
    r
}

/// Ensure the whole consume topology of message type `M` for processor
/// `P`: the exchange first, then a durable client-named queue, then the
/// binding of that queue to the exchange under the configured routing key.
/// Each step is idempotent, so repeating the call changes nothing and
/// produces no error and no duplicate binding.
pub fn ensure_queue<M: AmqpRouting, P: AmqpMessageProcessor<M>>(broker: &mut BrokerModel) -> (r:
    Result<(), Error>)
    requires
        old(broker)@.inv(),
    ensures
        final(broker)@.inv(),
        final(broker)@.deliveries == old(broker)@.deliveries,
        final(broker)@.acks == old(broker)@.acks,
        final(broker)@.confirms_enabled == old(broker)@.confirms_enabled,
        final(broker)@.next_tag == old(broker)@.next_tag,
        final(broker)@.ack_failures_left == old(broker)@.ack_failures_left,
        ({
            let d = ExchangeDeclView {
                name: M::spec_exchange(),
                exchange_type: M::spec_exchange_type(),
                durable: true,
            };
            let b = QueueBindingView {
                queue: P::spec_queue(),
                exchange: M::spec_exchange(),
                routing_key: M::spec_routing_key(),
            };
            &&& (has_exchange_conflict(old(broker)@.exchanges, d) ==> (r matches Err(e)
                && e matches Error::AmqpError(_)) && final(broker)@.exchanges
                == old(broker)@.exchanges && final(broker)@.queues == old(broker)@.queues
                && final(broker)@.bindings == old(broker)@.bindings)
            &&& (!has_exchange_conflict(old(broker)@.exchanges, d) ==> {
                &&& r is Ok
                &&& final(broker)@.exchanges == (if has_exchange(old(broker)@.exchanges, d.name) {
                    old(broker)@.exchanges
                } else {
                    old(broker)@.exchanges.push(d)
                })
                &&& final(broker)@.queues == (if has_queue(old(broker)@.queues, P::spec_queue()) {
                    old(broker)@.queues
                } else {
                    old(broker)@.queues.push(P::spec_queue())
                })
                &&& final(broker)@.bindings == (if has_binding(old(broker)@.bindings, b) {
                    old(broker)@.bindings
                } else {
                    old(broker)@.bindings.push(b)
                })
                &&& has_exchange(final(broker)@.exchanges, d.name)
                &&& has_queue(final(broker)@.queues, P::spec_queue())
                &&& has_binding(final(broker)@.bindings, b)
            })
        }),
{
    let r = ensure_exchange::<M>(broker);
    if let Err(e) = r {
        return Err(e);
    }
    let queue_name = P::queue();
    let r2 = broker.queue_declare(queue_name);
    if let Err(e) = r2 {
        return Err(e);
    }
    proof {
        if !has_queue(old(broker)@.queues, P::spec_queue()) {
            assert(broker@.queues[broker@.queues.len() - 1] == P::spec_queue());
        }
        assert(has_queue(broker@.queues, P::spec_queue()));
    }
    let rd = M::routing();
    let binding = QueueBinding {
        queue: P::queue(),
        exchange: rd.exchange,
        routing_key: rd.routing_key,
    };
    let r3 = broker.queue_bind(binding);
    proof {
        let b = QueueBindingView {
            queue: P::spec_queue(),
            exchange: M::spec_exchange(),
            routing_key: M::spec_routing_key(),
        };
        if !has_binding(old(broker)@.bindings, b) {
            assert(broker@.bindings[broker@.bindings.len() - 1] == b);
        }
        assert(has_binding(broker@.bindings, b));
    }
    r3
}

/// Bind the consumer's queue for a message type, ready for deliveries with
/// manual acknowledgment. The topology must have been ensured before.
pub fn setup_consumer<M: AmqpRouting, P: AmqpMessageProcessor<M>>(broker: &mut BrokerModel) -> (r:
    Result<(), Error>)
    requires
        old(broker)@.inv(),
    ensures
        final(broker)@.inv(),
        final(broker)@.exchanges == old(broker)@.exchanges,
        final(broker)@.queues == old(broker)@.queues,
        final(broker)@.deliveries == old(broker)@.deliveries,
        final(broker)@.acks == old(broker)@.acks,
        final(broker)@.confirms_enabled == old(broker)@.confirms_enabled,
        final(broker)@.next_tag == old(broker)@.next_tag,
        final(broker)@.ack_failures_left == old(broker)@.ack_failures_left,
        ({
            let b = QueueBindingView {
                queue: P::spec_queue(),
                exchange: M::spec_exchange(),
                routing_key: M::spec_routing_key(),
            };
            &&& (!(has_exchange(old(broker)@.exchanges, b.exchange) && has_queue(
                old(broker)@.queues,
                b.queue,
            )) ==> (r matches Err(e) && e matches Error::AmqpError(_)) && final(broker)@.bindings
                == old(broker)@.bindings)
            &&& (has_exchange(old(broker)@.exchanges, b.exchange) && has_queue(
                old(broker)@.queues,
                b.queue,
            ) ==> r is Ok && has_binding(final(broker)@.bindings, b) && (has_binding(
                old(broker)@.bindings,
                b,
            ) ==> final(broker)@.bindings == old(broker)@.bindings) && (!has_binding(
                old(broker)@.bindings,
                b,
            ) ==> final(broker)@.bindings == old(broker)@.bindings.push(b)))
        }),
{
    let rd = M::routing();
    let binding = QueueBinding {
        queue: P::queue(),
        exchange: rd.exchange,
        routing_key: rd.routing_key,
    };
    let r = broker.queue_bind(binding);
    proof {
        let b = QueueBindingView {
            queue: P::spec_queue(),
            exchange: M::spec_exchange(),
            routing_key: M::spec_routing_key(),
        };
        if has_exchange(old(broker)@.exchanges, b.exchange) && has_queue(
            old(broker)@.queues,
            b.queue,
        ) {
            if !has_binding(old(broker)@.bindings, b) {
                assert(broker@.bindings[broker@.bindings.len() - 1] == b);
            }
            assert(has_binding(broker@.bindings, b));
        }
    }
    r
}

/// Serialize a message and publish it with publisher confirms enabled and
/// the mandatory flag set. A value that cannot be encoded fails with a
/// serialize-class error and is not retried: it is malformed by
/// construction. No retry happens here at all — retry policy belongs to
/// the caller.
pub fn send<M: AmqpMessageSend>(msg: &M, broker: &mut BrokerModel) -> (r: Result<(), Error>)
    requires
        old(broker)@.inv(),
        old(broker)@.next_tag + old(broker)@.bindings.len() <= u64::MAX,
    ensures
        final(broker)@.inv(),
        final(broker)@.exchanges == old(broker)@.exchanges,
        final(broker)@.queues == old(broker)@.queues,
        final(broker)@.bindings == old(broker)@.bindings,
        final(broker)@.acks == old(broker)@.acks,
        final(broker)@.ack_failures_left == old(broker)@.ack_failures_left,
        !msg.spec_encodable() ==> {
            &&& (r matches Err(e) && e matches Error::SerializeError(_))
            &&& final(broker)@ == old(broker)@
        },
        msg.spec_encodable() ==> {
            &&& r is Ok
            &&& final(broker)@.confirms_enabled
            &&& final(broker)@.deliveries == old(broker)@.deliveries + spec_fanout(
                old(broker)@.bindings,
                0,
                M::spec_exchange(),
                M::spec_routing_key(),
                msg.spec_bytes(),
                old(broker)@.next_tag as int,
            )
        },
{
    let bytes = match msg.to_bytes() {
        Ok(b) => b,
        Err(e) => {
            return Err(e);
        },
    };
    let rd = M::routing();
    broker.confirm_select();
    broker.basic_publish(&rd.exchange, &rd.routing_key, bytes, true)
}

/// Consumer for a message type: decodes each delivery, dispatches it to
/// the business handler, and resolves the outcome into an acknowledgment.
pub struct AmqpMessageConsumer<M, Inner> {
    inner: Inner,
    _marker: PhantomData<M>,
}

impl<M: MessageDe, Inner: Processor<M, Result<(), Error>>> AmqpMessageConsumer<M, Inner> {
    /// The handler this consumer dispatches to.
    pub closed spec fn spec_inner(&self) -> Inner {
        self.inner
    }

    /// Create a new consumer around a handler: the consumer holds exactly
    /// the given processor, and every later dispatch goes to it.
    pub fn new(inner: Inner) -> (r: AmqpMessageConsumer<M, Inner>)
        ensures
            r.spec_inner() == inner,
    {
        AmqpMessageConsumer { inner, _marker: PhantomData }
    }

    /// Decode the payload and dispatch it to the held handler. A
    /// malformed payload short-circuits with a deserialize-class error:
    /// the handler is not invoked for it.
    pub fn on_message(&self, content: &[u8]) -> (r: Result<(), Error>)
        ensures
            M::spec_decode(content@) is None ==> (r matches Err(e) && e matches
                Error::DeserializeError(_)),
    {
        match M::from_bytes(content) {
            Ok(decoded) => self.inner.process(decoded),
            Err(e) => Err(e),
        }
    }

    /// Process one delivery end to end: decode, dispatch, then resolve the
    /// outcome by the acknowledgment policy, acking or nacking with
    /// bounded retry. The returned action is the policy's, and the
    /// broker's acknowledgment log reflects exactly that action; a
    /// malformed payload is always acked, never requeued.
    pub fn consume(&self, broker: &mut BrokerModel, tag: u64, content: &[u8]) -> (r: AckAction)
        requires
            old(broker)@.inv(),
        ensures
            final(broker)@.inv(),
            final(broker)@.exchanges == old(broker)@.exchanges,
            final(broker)@.queues == old(broker)@.queues,
            final(broker)@.bindings == old(broker)@.bindings,
            final(broker)@.deliveries == old(broker)@.deliveries,
            final(broker)@.confirms_enabled == old(broker)@.confirms_enabled,
            final(broker)@.next_tag == old(broker)@.next_tag,
            M::spec_decode(content@) is None ==> r == AckAction::Ack,
            r == AckAction::Dropped ==> {
                &&& final(broker)@.acks == old(broker)@.acks
                &&& final(broker)@.ack_failures_left == old(broker)@.ack_failures_left
            },
            r != AckAction::Dropped && old(broker)@.ack_failures_left < MAX_ACK_RETRIES ==> {
                &&& final(broker)@.acks == old(broker)@.acks.push(
                    AckRecord {
                        tag,
                        positive: r == AckAction::Ack,
                        requeue: r == AckAction::NackRequeue,
                    },
                )
                &&& final(broker)@.ack_failures_left == 0
            },
            r != AckAction::Dropped && old(broker)@.ack_failures_left >= MAX_ACK_RETRIES ==> {
                &&& final(broker)@.acks == old(broker)@.acks
                &&& final(broker)@.ack_failures_left == old(broker)@.ack_failures_left
                    - MAX_ACK_RETRIES
            },
    {
        let outcome = self.on_message(content);
        resolve_delivery(broker, tag, &outcome)
    }
}

impl AmqpRouting for OrderCreated {
    open spec fn spec_exchange() -> Seq<char> {
        "orders"@
    }

    open spec fn spec_exchange_type() -> AmqpExchangeType {
        AmqpExchangeType::Topic
    }

    open spec fn spec_routing_key() -> Seq<char> {
        "orders.created"@
    }

    fn routing() -> (r: RoutingDescriptor) {
        RoutingDescriptor {
            exchange: String::from_str("orders"),
            exchange_type: AmqpExchangeType::Topic,
            routing_key: String::from_str("orders.created"),
        }
    }
}

impl AmqpMessageSend for OrderCreated {

}

/// Idempotent topology, exchanges: after a successful declaration the same
/// declaration conflicts with nothing, so repeating it is accepted and adds
/// nothing.
pub proof fn lemma_exchange_declare_idempotent(s: Seq<ExchangeDeclView>, d: ExchangeDeclView)
    requires
        !has_exchange_conflict(s, d),
    ensures
        has_exchange(s.push(d), d.name),
        !has_exchange_conflict(s.push(d), d),
        has_exchange(s, d.name) ==> !has_exchange_conflict(s, d),
{
    let s2 = s.push(d);
    assert(s2[s.len() as int].name == d.name);
    assert forall|i: int|
        0 <= i < s2.len() && #[trigger] s2[i].name == d.name implies s2[i] == d by {
        if i < s.len() {
            assert(s[i].name == d.name && s[i] == s2[i]);
        }
    }
}

/// Idempotent topology, bindings: once a binding is present, binding the
/// same triple again adds nothing, so no duplicate binding ever exists.
pub proof fn lemma_queue_bind_idempotent(s: Seq<QueueBindingView>, b: QueueBindingView)
    ensures
        has_binding(s.push(b), b),
{
    let s2 = s.push(b);
    assert(s2[s.len() as int] == b);
}

} // verus!
