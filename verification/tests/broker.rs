use kanaeru::error::Error;
use kanaeru::message::{MessageDe, MessageSer, OrderCreated};
use kanaeru::processor::Processor;
use kanaeru::rabbitmq::{
    ack, ack_decision, ensure_exchange, ensure_queue, nack, resolve_delivery, send,
    setup_consumer, AckAction, AmqpExchangeType, AmqpMessageConsumer, AmqpMessageProcessor,
    BrokerModel, ExchangeDecl,
};

struct OkWorker;

impl Processor<OrderCreated, Result<(), Error>> for OkWorker {
    fn process(&self, _input: OrderCreated) -> Result<(), Error> {
        Ok(())
    }
}

impl AmqpMessageProcessor<OrderCreated> for OkWorker {
    fn spec_queue() -> vstd::seq::Seq<char> {
        unreachable!()
    }

    fn queue() -> String {
        String::from("orders-worker")
    }
}

struct DbFailWorker;

impl Processor<OrderCreated, Result<(), Error>> for DbFailWorker {
    fn process(&self, _input: OrderCreated) -> Result<(), Error> {
        Err(Error::DatabaseError(String::from("connection reset")))
    }
}

impl AmqpMessageProcessor<OrderCreated> for DbFailWorker {
    fn spec_queue() -> vstd::seq::Seq<char> {
        unreachable!()
    }

    fn queue() -> String {
        String::from("orders-worker")
    }
}

struct DeserFailWorker;

impl Processor<OrderCreated, Result<(), Error>> for DeserFailWorker {
    fn process(&self, _input: OrderCreated) -> Result<(), Error> {
        Err(Error::DeserializeError(String::from("unknown field")))
    }
}

struct AmqpFailWorker;

impl Processor<OrderCreated, Result<(), Error>> for AmqpFailWorker {
    fn process(&self, _input: OrderCreated) -> Result<(), Error> {
        Err(Error::AmqpError(String::from("channel closed")))
    }
}

#[test]
fn topology_is_idempotent() {
    let mut broker = BrokerModel::new();
    assert!(ensure_queue::<OrderCreated, OkWorker>(&mut broker).is_ok());
    assert!(ensure_queue::<OrderCreated, OkWorker>(&mut broker).is_ok());
    assert_eq!(broker.exchanges.len(), 1, "no duplicate exchange");
    assert_eq!(broker.queues.len(), 1, "no duplicate queue");
    assert_eq!(broker.bindings.len(), 1, "no duplicate binding");
    assert_eq!(broker.exchanges[0].name, "orders");
    assert!(matches!(broker.exchanges[0].exchange_type, AmqpExchangeType::Topic));
    assert!(broker.exchanges[0].durable);
    assert_eq!(broker.bindings[0].queue, "orders-worker");
    assert_eq!(broker.bindings[0].exchange, "orders");
    assert_eq!(broker.bindings[0].routing_key, "orders.created");
}

#[test]
fn conflicting_exchange_declaration_is_refused() {
    let mut broker = BrokerModel::new();
    broker
        .exchange_declare(ExchangeDecl {
            name: String::from("orders"),
            exchange_type: AmqpExchangeType::Direct,
            durable: true,
        })
        .unwrap();
    match ensure_exchange::<OrderCreated>(&mut broker) {
        Err(Error::AmqpError(_)) => {}
        _ => panic!("a redeclaration with another kind must be refused"),
    }
    assert_eq!(broker.exchanges.len(), 1);
}

#[test]
fn setup_consumer_binds_once() {
    let mut broker = BrokerModel::new();
    ensure_queue::<OrderCreated, OkWorker>(&mut broker).unwrap();
    setup_consumer::<OrderCreated, OkWorker>(&mut broker).unwrap();
    assert_eq!(broker.bindings.len(), 1, "rebinding the same triple adds nothing");
}

#[test]
fn publish_consume_delivers_exact_bytes() {
    let mut broker = BrokerModel::new();
    ensure_queue::<OrderCreated, OkWorker>(&mut broker).unwrap();
    let msg = OrderCreated { order_id: 7, amount: 30 };
    send(&msg, &mut broker).unwrap();
    let delivery = broker
        .next_delivery(&String::from("orders-worker"))
        .expect("the bound queue should hold the message");
    assert_eq!(delivery.payload, msg.to_bytes().unwrap(), "the exact bytes published");
    let decoded = OrderCreated::from_bytes(&delivery.payload).unwrap();
    assert_eq!(decoded, msg, "decoded into the identical structured message");
    assert!(
        broker.next_delivery(&String::from("orders-worker")).is_none(),
        "exactly one delivery"
    );
    let consumer: AmqpMessageConsumer<OrderCreated, OkWorker> = AmqpMessageConsumer::new(OkWorker);
    let action = consumer.consume(&mut broker, delivery.tag, &delivery.payload);
    assert!(matches!(action, AckAction::Ack));
    assert_eq!(broker.acks.len(), 1);
    assert_eq!(broker.acks[0].tag, delivery.tag);
    assert!(broker.acks[0].positive);
    assert!(!broker.acks[0].requeue);
}

#[test]
fn publish_without_binding_is_fire_and_forget() {
    let mut broker = BrokerModel::new();
    let msg = OrderCreated { order_id: 1, amount: 1 };
    assert!(send(&msg, &mut broker).is_ok());
    assert!(broker.next_delivery(&String::from("orders-worker")).is_none());
}

#[test]
fn database_failure_nacks_with_requeue() {
    let mut broker = BrokerModel::new();
    ensure_queue::<OrderCreated, DbFailWorker>(&mut broker).unwrap();
    let msg = OrderCreated { order_id: 2, amount: 9 };
    send(&msg, &mut broker).unwrap();
    let delivery = broker.next_delivery(&String::from("orders-worker")).unwrap();
    let consumer: AmqpMessageConsumer<OrderCreated, DbFailWorker> =
        AmqpMessageConsumer::new(DbFailWorker);
    let action = consumer.consume(&mut broker, delivery.tag, &delivery.payload);
    assert!(matches!(action, AckAction::NackRequeue));
    assert_eq!(broker.acks.len(), 1, "exactly one nack and no ack");
    assert!(!broker.acks[0].positive);
    assert!(broker.acks[0].requeue);
}

#[test]
fn deserialize_failure_acks_without_requeue() {
    let mut broker = BrokerModel::new();
    let consumer: AmqpMessageConsumer<OrderCreated, DeserFailWorker> =
        AmqpMessageConsumer::new(DeserFailWorker);
    let action = consumer.consume(&mut broker, 4, &[1u8, 2, 3, 4, 5, 6, 7, 8, 9, 10, 11, 12, 13, 14, 15, 16]);
    assert!(matches!(action, AckAction::Ack));
    assert_eq!(broker.acks.len(), 1, "exactly one ack and no nack");
    assert!(broker.acks[0].positive);
    assert!(!broker.acks[0].requeue);
}

#[test]
fn malformed_payload_short_circuits_to_ack() {
    let mut broker = BrokerModel::new();
    let consumer: AmqpMessageConsumer<OrderCreated, OkWorker> = AmqpMessageConsumer::new(OkWorker);
    let action = consumer.consume(&mut broker, 5, &[1u8, 2, 3]);
    assert!(matches!(action, AckAction::Ack));
    assert_eq!(broker.acks.len(), 1);
    assert!(broker.acks[0].positive);
}

#[test]
fn transport_failure_drops_the_delivery() {
    let mut broker = BrokerModel::new();
    let consumer: AmqpMessageConsumer<OrderCreated, AmqpFailWorker> =
        AmqpMessageConsumer::new(AmqpFailWorker);
    let msg = OrderCreated { order_id: 3, amount: 4 };
    let payload = msg.to_bytes().unwrap();
    let action = consumer.consume(&mut broker, 6, &payload);
    assert!(matches!(action, AckAction::Dropped));
    assert!(broker.acks.is_empty(), "neither ack nor nack is attempted");
}

#[test]
fn ack_mapping_matches_the_policy_table() {
    let table: Vec<(Result<(), Error>, AckAction)> = vec![
        (Ok(()), AckAction::Ack),
        (Err(Error::SerializeError(String::from("s"))), AckAction::Ack),
        (Err(Error::DeserializeError(String::from("d"))), AckAction::Ack),
        (Err(Error::BusinessPanic(String::from("b"))), AckAction::Ack),
        (Err(Error::PermissionsDenied), AckAction::Ack),
        (Err(Error::InvalidInput), AckAction::Ack),
        (Err(Error::NotFound), AckAction::Ack),
        (Err(Error::DatabaseError(String::from("db"))), AckAction::NackRequeue),
        (Err(Error::RedisError(String::from("kv"))), AckAction::NackRequeue),
        (Err(Error::Io(String::from("io"))), AckAction::NackRequeue),
        (Err(Error::AmqpError(String::from("mq"))), AckAction::Dropped),
    ];
    for (outcome, expected) in table {
        assert_eq!(ack_decision(&outcome), expected);
        assert_eq!(
            ack_decision(&outcome),
            expected,
            "re-running the same outcome yields the same action"
        );
    }
}

#[test]
fn ack_gives_up_after_exactly_five_attempts() {
    let mut broker = BrokerModel::new();
    broker.inject_ack_failures(7);
    ack(&mut broker, 1, 5);
    assert!(broker.acks.is_empty(), "no ack goes through while the broker fails");
    assert_eq!(
        broker.ack_failures_left, 2,
        "exactly five attempts were made, consuming five induced failures"
    );
}

#[test]
fn ack_succeeds_on_the_last_allowed_attempt() {
    let mut broker = BrokerModel::new();
    broker.inject_ack_failures(4);
    ack(&mut broker, 2, 5);
    assert_eq!(broker.acks.len(), 1, "the fifth attempt goes through");
    assert!(broker.acks[0].positive);
    assert_eq!(broker.ack_failures_left, 0);
}

#[test]
fn nack_retries_like_ack() {
    let mut broker = BrokerModel::new();
    broker.inject_ack_failures(2);
    nack(&mut broker, 3, true, 5);
    assert_eq!(broker.acks.len(), 1);
    assert!(!broker.acks[0].positive);
    assert!(broker.acks[0].requeue);
}

#[test]
fn resolve_gives_up_silently_when_broker_keeps_failing() {
    let mut broker = BrokerModel::new();
    broker.inject_ack_failures(5);
    let action = resolve_delivery(&mut broker, 8, &Ok(()));
    assert!(matches!(action, AckAction::Ack));
    assert!(broker.acks.is_empty(), "the delivery stays unacknowledged");
    assert_eq!(broker.ack_failures_left, 0, "exactly five attempts were made");
}

#[test]
fn fanout_reaches_every_matching_binding_in_order() {
    let mut broker = BrokerModel::new();
    ensure_queue::<OrderCreated, OkWorker>(&mut broker).unwrap();
    broker.queue_declare(String::from("orders-audit")).unwrap();
    broker
        .queue_bind(kanaeru::rabbitmq::QueueBinding {
            queue: String::from("orders-audit"),
            exchange: String::from("orders"),
            routing_key: String::from("orders.created"),
        })
        .unwrap();
    let msg = OrderCreated { order_id: 11, amount: 12 };
    send(&msg, &mut broker).unwrap();
    let worker = broker.next_delivery(&String::from("orders-worker")).unwrap();
    let audit = broker.next_delivery(&String::from("orders-audit")).unwrap();
    assert_eq!(worker.payload, audit.payload, "each bound queue receives a copy");
    assert_ne!(worker.tag, audit.tag, "each delivery carries its own tag");
}

#[test]
fn deliveries_come_out_oldest_first() {
    let mut broker = BrokerModel::new();
    ensure_queue::<OrderCreated, OkWorker>(&mut broker).unwrap();
    send(&OrderCreated { order_id: 1, amount: 0 }, &mut broker).unwrap();
    send(&OrderCreated { order_id: 2, amount: 0 }, &mut broker).unwrap();
    let first = broker.next_delivery(&String::from("orders-worker")).unwrap();
    let second = broker.next_delivery(&String::from("orders-worker")).unwrap();
    assert_eq!(OrderCreated::from_bytes(&first.payload).unwrap().order_id, 1);
    assert_eq!(OrderCreated::from_bytes(&second.payload).unwrap().order_id, 2);
    assert!(first.tag < second.tag);
}
