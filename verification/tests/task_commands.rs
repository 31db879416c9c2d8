use kronforce::db::models::{FtpProtocol, SqlDriver, TransferDirection};
use kronforce::executor::tasks::commands::{
    consume_timeout, docker_command, ftp_command, ftp_url, kafka_command, kafka_consume_command,
    mqtt_command, mqtt_subscribe_command, netrc_content, rabbitmq_command,
    rabbitmq_consume_command, redis_command, redis_read_command, sql_command,
};

#[test]
fn sql_commands_quote_their_arguments() {
    assert_eq!(sql_command(SqlDriver::Postgres, "postgres://x", "select 1", false), "psql 'postgres://x' -c 'select 1'");
    assert_eq!(sql_command(SqlDriver::Mysql, "db", "it's", false), "mysql 'db' -e 'it'\\''s'");
    assert_eq!(sql_command(SqlDriver::Sqlite, "a.db", "q", false), "sqlite3 'a.db' 'q'");
}

#[test]
fn ftp_url_netrc_and_curl() {
    assert_eq!(ftp_url(FtpProtocol::Sftp, "h", Some(2222), "/in/a.txt"), "sftp://h:2222/in/a.txt");
    assert_eq!(ftp_url(FtpProtocol::Ftp, "h", None, "/a"), "ftp://h/a");
    assert_eq!(netrc_content("h", "u", "p"), "machine h\nlogin u\npassword p\n");
    assert_eq!(
        ftp_command(TransferDirection::Download, "/tmp/n", "ftp://h/a", "/x", false),
        "curl --netrc-file '/tmp/n' 'ftp://h/a' -o '/x'"
    );
    assert_eq!(
        ftp_command(TransferDirection::Upload, "/tmp/n", "ftp://h/a", "/x", false),
        "curl --netrc-file '/tmp/n' -T '/x' 'ftp://h/a'"
    );
}

#[test]
fn messaging_commands() {
    assert_eq!(
        kafka_command("b:9092", "t", "hi", None, Some("  a=1   b=2 "), false),
        "echo 'hi' | kafka-console-producer --broker-list 'b:9092' --topic 't' 'a=1' 'b=2'"
    );
    assert_eq!(
        kafka_command("b", "t", "m", Some("k"), None, false),
        "echo 'k':'m' | kafka-console-producer --broker-list 'b' --topic 't' --property parse.key=true --property key.separator=:"
    );
    assert_eq!(
        rabbitmq_command("amqp://x", "ex", "rk", "m", Some("text/plain"), false),
        "amqp-publish --url 'amqp://x' --exchange 'ex' --routing-key 'rk' --body 'm' --content-type 'text/plain'"
    );
    assert_eq!(
        mqtt_command("b", "t", "m", None, Some(1), Some("u"), None, Some("c"), false),
        "mosquitto_pub -h 'b' -p 1883 -t 't' -m 'm' -q 1 -u 'u' -i 'c'"
    );
    assert_eq!(redis_command("redis://x", "ch", "m", false), "redis-cli -u 'redis://x' PUBLISH 'ch' 'm'");
}

#[test]
fn consuming_commands() {
    assert_eq!(consume_timeout(None), Some(30));
    assert_eq!(consume_timeout(Some(5)), Some(5));
    assert_eq!(
        kafka_consume_command("b", "t", Some("g"), Some(3), Some("earliest"), false),
        "kafka-console-consumer --bootstrap-server 'b' --topic 't' --max-messages 3 --from-beginning --group 'g'"
    );
    assert_eq!(
        kafka_consume_command("b", "t", None, None, None, false),
        "kafka-console-consumer --bootstrap-server 'b' --topic 't' --max-messages 1"
    );
    assert_eq!(
        mqtt_subscribe_command("b", "t", Some(1884), None, None, Some("p"), None, None, false),
        "mosquitto_sub -h 'b' -p 1884 -t 't' -C 1 -P 'p'"
    );
    assert_eq!(rabbitmq_consume_command("u", "q", Some(2), false), "amqp-consume --url 'u' --queue 'q' -c 2 cat");
    assert_eq!(redis_read_command("u", "k", None, None, None, false), "redis-cli -u 'u' LPOP 'k' 1");
    assert_eq!(redis_read_command("u", "k", Some("xread"), Some(4), None, false), "redis-cli -u 'u' XREAD COUNT 4 STREAMS 'k' 0");
    assert_eq!(
        redis_read_command("u", "k", Some("subscribe"), None, None, false),
        "redis-cli -u 'u' SUBSCRIBE 'k' &\nSUB_PID=$!; sleep 10; kill $SUB_PID 2>/dev/null"
    );
}

#[test]
fn docker_build_line() {
    assert_eq!(
        docker_command("img", "--no-cache  --pull", true, "/tmp/kf", true, false),
        "docker build --progress=plain -t 'img' '--no-cache' '--pull' -f '/tmp/kf'/Dockerfile '/tmp/kf' && docker run --rm 'img' ; RET=$?; rm -rf '/tmp/kf'; exit $RET"
    );
    assert_eq!(
        docker_command("img", "", false, "/t", false, false),
        "docker build --progress=plain -t 'img'  -f '/t'/Dockerfile '/t' ; RET=$?; rm -rf '/t'; exit $RET"
    );
}
