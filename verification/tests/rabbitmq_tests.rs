use camera_streaming::rabbitmq::RabbitmqConn;

#[test]
fn connection_settings_are_kept() {
    let c = RabbitmqConn::new("localhost".to_string(), 5672, "guest".to_string(), "pw".to_string());
    assert_eq!(c.host(), "localhost");
    assert_eq!(c.port(), 5672);
    assert_eq!(c.username(), "guest");
    assert_eq!(c.password(), "pw");
}

#[test]
fn queue_arguments_build() {
    let c = RabbitmqConn::new("h".to_string(), 1, "u".to_string(), "p".to_string());
    let _open = c.connection_arguments();
    let (_declare, publish, _props) = c.queue_plan("frames", true);
    assert_eq!(publish.routing_key, "frames");
    assert_eq!(publish.exchange, "");
    let consume = c.consume_arguments("frames");
    assert_eq!(consume.queue, "frames");
    assert_eq!(consume.consumer_tag, "rabbitmq-rust");
    assert!(!consume.no_ack && !consume.no_local && !consume.exclusive && !consume.no_wait);
    assert!(!publish.mandatory && !publish.immediate);
    let purge = c.purge_arguments("frames");
    assert_eq!(purge.queue, "frames");
    assert!(!purge.no_wait);
}

#[test]
fn connection_arguments_carry_settings() {
    let c = RabbitmqConn::new("broker".to_string(), 5673, "user".to_string(), "secret".to_string());
    let args = c.connection_arguments();
    assert_eq!(args.get_host(), "broker");
    assert_eq!(args.get_port(), 5673);
    assert_eq!(args.get_virtual_host(), "/");
    assert!(*args.get_credentials() == amqprs::security::SecurityCredentials::new_plain("user", "secret"));
    assert!(*args.get_credentials() != amqprs::security::SecurityCredentials::new_plain("secret", "user"));
}

#[test]
fn queue_plan_sends_persistent_messages_to_queue() {
    let c = RabbitmqConn::new("h".to_string(), 1, "u".to_string(), "p".to_string());
    let (_declare, publish, props) = c.queue_plan("audio", false);
    assert_eq!(publish.routing_key, "audio");
    assert_eq!(props.delivery_mode(), Some(2));
    assert_eq!(c.purge_arguments("audio").queue, "audio");
}
