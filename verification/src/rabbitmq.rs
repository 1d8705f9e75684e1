//! Where the RabbitMQ broker is and how to talk to it: the connection
//! settings, and the arguments of the queue calls.

use vstd::prelude::*;

verus! {

#[verifier::external_type_specification]
#[verifier::external_body]
pub struct ExOpenConnectionArguments(amqprs::connection::OpenConnectionArguments);

#[verifier::external_type_specification]
#[verifier::external_body]
pub struct ExQueueDeclareArguments(amqprs::channel::QueueDeclareArguments);

#[verifier::external_type_specification]
pub struct ExBasicPublishArguments(amqprs::channel::BasicPublishArguments);

#[verifier::external_type_specification]
#[verifier::external_body]
pub struct ExBasicProperties(amqprs::BasicProperties);

#[verifier::external_type_specification]
pub struct ExQueuePurgeArguments(amqprs::channel::QueuePurgeArguments);

#[verifier::external_type_specification]
#[verifier::external_body]
pub struct ExFieldTable(amqprs::FieldTable);

#[verifier::external_type_specification]
pub struct ExBasicConsumeArguments(amqprs::channel::BasicConsumeArguments);

/// What `OpenConnectionArguments::new(host, port, username, password)` builds.
pub uninterp spec fn open_arguments_of(
    host: Seq<char>,
    port: u16,
    username: Seq<char>,
    password: Seq<char>,
) -> amqprs::connection::OpenConnectionArguments;

/// Builds the connection arguments with `OpenConnectionArguments::new`, which
/// copies the four arguments into the value and adds fixed defaults. The
/// value's fields are private, so the contract names it as built from them.
#[verifier::external_body]
fn amqp_open_arguments(host: &str, port: u16, username: &str, password: &str) -> (r:
    amqprs::connection::OpenConnectionArguments)
    ensures
        r == open_arguments_of(host@, port, username@, password@),
{
    amqprs::connection::OpenConnectionArguments::new(host, port, username, password)
}

/// Builds the arguments of `queue.declare` for `queue_name` with the given
/// durability, through the builder `QueueDeclareArguments::default()
/// .queue(..).durable(..).finish()`. Nothing is claimed of the value: it
/// holds a `HashMap` whose hasher each process seeds, so it gets no name.
#[verifier::external_body]
fn amqp_queue_declare_arguments(queue_name: &str, durable: bool)
    -> amqprs::channel::QueueDeclareArguments
{
    amqprs::channel::QueueDeclareArguments::default()
        .queue(queue_name.to_string())
        .durable(durable)
        .finish()
}

/// Builds the arguments of `basic.publish` with
/// `BasicPublishArguments::new("", queue_name)`: the default exchange, routed
/// by `queue_name`, neither mandatory nor immediate.
#[verifier::external_body]
fn amqp_publish_arguments(queue_name: &str) -> (r: amqprs::channel::BasicPublishArguments)
    ensures
        r.exchange@ == Seq::<char>::empty(),
        r.routing_key@ == queue_name@,
        !r.mandatory,
        !r.immediate,
{
    amqprs::channel::BasicPublishArguments::new("", queue_name)
}

/// What `BasicProperties::default().with_delivery_mode(delivery_mode).finish()` builds.
pub uninterp spec fn properties_with_delivery_mode(delivery_mode: u8) -> amqprs::BasicProperties;

/// Builds message properties with the given delivery mode through
/// `BasicProperties::default().with_delivery_mode(..).finish()`; the
/// contract names the value as built from `delivery_mode`.
#[verifier::external_body]
fn amqp_persistent_properties(delivery_mode: u8) -> (r: amqprs::BasicProperties)
    ensures
        r == properties_with_delivery_mode(delivery_mode),
{
    amqprs::BasicProperties::default().with_delivery_mode(delivery_mode).finish()
}

/// Builds the arguments of `queue.purge` with `QueuePurgeArguments::new`:
/// the queue `queue_name`, waiting for the broker's answer.
#[verifier::external_body]
fn amqp_purge_arguments(queue_name: &str) -> (r: amqprs::channel::QueuePurgeArguments)
    ensures
        r.queue@ == queue_name@,
        !r.no_wait,
{
    amqprs::channel::QueuePurgeArguments::new(queue_name)
}

/// Builds the arguments of `basic.consume` with `BasicConsumeArguments::new`:
/// the queue and the consumer tag given, with every flag off. Its argument
/// table is left unsaid: it holds a `HashMap` whose hasher each process
/// seeds, so it gets no name.
#[verifier::external_body]
fn amqp_consume_arguments(queue_name: &str, consumer_tag: &str) -> (r:
    amqprs::channel::BasicConsumeArguments)
    ensures
        r.queue@ == queue_name@,
        r.consumer_tag@ == consumer_tag@,
        !r.no_local,
        !r.no_ack,
        !r.exclusive,
        !r.no_wait,
{
    amqprs::channel::BasicConsumeArguments::new(queue_name, consumer_tag)
}

/// The consumer tag under which the server consumes a queue.
pub const CONSUMER_TAG: &'static str = "rabbitmq-rust";

/// The delivery mode that marks a message persistent.
pub const PERSISTENT_DELIVERY_MODE: u8 = 2;

/// The broker's address and credentials.
#[derive(Clone, Debug)]
pub struct RabbitmqConn {
    host: String,
    port: u16,
    username: String,
    password: String,
}

impl View for RabbitmqConn {
    /// (host, port, username, password)
    type V = (Seq<char>, u16, Seq<char>, Seq<char>);

    closed spec fn view(&self) -> (Seq<char>, u16, Seq<char>, Seq<char>) {
        (self.host@, self.port, self.username@, self.password@)
    }
}

impl RabbitmqConn {
    /// The broker at `host:port`, reached as `username` with `password`.
    pub fn new(host: String, port: u16, username: String, password: String) -> (r: Self)
        ensures
            r@ == (host@, port, username@, password@),
    {
        RabbitmqConn { host, port, username, password }
    }

    /// The broker's host.
    pub fn host(&self) -> (r: &str)
        ensures
            r@ == self@.0,
    {
        self.host.as_str()
    }

    /// The broker's port.
    pub fn port(&self) -> (r: u16)
        ensures
            r == self@.1,
    {
        self.port
    }

    /// The user name.
    pub fn username(&self) -> (r: &str)
        ensures
            r@ == self@.2,
    {
        self.username.as_str()
    }

    /// The password.
    pub fn password(&self) -> (r: &str)
        ensures
            r@ == self@.3,
    {
        self.password.as_str()
    }

    /// The arguments with which a connection to this broker is opened.
    pub fn connection_arguments(&self) -> (r: amqprs::connection::OpenConnectionArguments)
        ensures
            r == open_arguments_of(self@.0, self@.1, self@.2, self@.3),
    {
        amqp_open_arguments(self.host.as_str(), self.port, self.username.as_str(), self.password.as_str())
    }

    /// What declaring `queue_name` takes: the declare arguments, then the
    /// publish arguments and the persistent message properties that sending
    /// to the queue uses.
    pub fn queue_plan(&self, queue_name: &str, durable: bool) -> (r: (
        amqprs::channel::QueueDeclareArguments,
        amqprs::channel::BasicPublishArguments,
        amqprs::BasicProperties,
    ))
        ensures
            r.1.exchange@ == Seq::<char>::empty(),
            r.1.routing_key@ == queue_name@,
            !r.1.mandatory,
            !r.1.immediate,
            r.2 == properties_with_delivery_mode(PERSISTENT_DELIVERY_MODE),
    {
        let q_args = amqp_queue_declare_arguments(queue_name, durable);
        let publish_args = amqp_publish_arguments(queue_name);
        let props = amqp_persistent_properties(PERSISTENT_DELIVERY_MODE);
        (q_args, publish_args, props)
    }

    /// The arguments of a durable declaration of `queue_name`, as the
    /// consumer side declares it.
    pub fn consumer_queue_arguments(&self, queue_name: &str) -> amqprs::channel::QueueDeclareArguments {
        amqp_queue_declare_arguments(queue_name, true)
    }

    /// The arguments with which the consumer side consumes `queue_name`.
    pub fn consume_arguments(&self, queue_name: &str) -> (r: amqprs::channel::BasicConsumeArguments)
        ensures
            r.queue@ == queue_name@,
            r.consumer_tag@ == CONSUMER_TAG@,
            !r.no_local,
            !r.no_ack,
            !r.exclusive,
            !r.no_wait,
    {
        amqp_consume_arguments(queue_name, CONSUMER_TAG)
    }

    /// The arguments that empty `queue_name`.
    pub fn purge_arguments(&self, queue_name: &str) -> (r: amqprs::channel::QueuePurgeArguments)
        ensures
            r.queue@ == queue_name@,
            !r.no_wait,
    {
        amqp_purge_arguments(queue_name)
    }
}

} // verus!
