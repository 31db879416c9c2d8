//! The shell command lines that database, file-transfer, messaging and Docker
//! tasks run, every argument quoted for the shell.
use crate::db::models::task::{FtpProtocol, SqlDriver, TransferDirection};
use crate::executor::utils::{shell_escape, spec_shell_escape};
use crate::text::{chars_of, dec, join, push_decimal, split_whitespace, split_ws, str_eq, texts};
use vstd::prelude::*;

verus! {

/// One word quoted for the shell.
pub open spec fn esc(s: Seq<char>, windows: bool) -> Seq<char> {
    spec_shell_escape(s, windows)
}

/// The command line of a SQL task.
pub open spec fn spec_sql_command(driver: SqlDriver, conn: Seq<char>, query: Seq<char>, windows: bool) -> Seq<char> {
    match driver {
        SqlDriver::Postgres => "psql "@ + esc(conn, windows) + " -c "@ + esc(query, windows),
        SqlDriver::Mysql => "mysql "@ + esc(conn, windows) + " -e "@ + esc(query, windows),
        SqlDriver::Sqlite => "sqlite3 "@ + esc(conn, windows) + " "@ + esc(query, windows),
    }
}

/// The command line of a SQL task.
pub fn sql_command(driver: SqlDriver, conn: &str, query: &str, windows: bool) -> (r: String)
    ensures
        r@ == spec_sql_command(driver, conn@, query@, windows),
{
    let mut s = String::new();
    match driver {
        SqlDriver::Postgres => {
            s.append("psql ");
            s.append(shell_escape(conn, windows).as_str());
            s.append(" -c ");
        },
        SqlDriver::Mysql => {
            s.append("mysql ");
            s.append(shell_escape(conn, windows).as_str());
            s.append(" -e ");
        },
        SqlDriver::Sqlite => {
            s.append("sqlite3 ");
            s.append(shell_escape(conn, windows).as_str());
            s.append(" ");
        },
    }
    s.append(shell_escape(query, windows).as_str());
    s
}

/// `:port` when a port is given, else nothing.
pub open spec fn port_part(port: Option<u16>) -> Seq<char> {
    match port {
        Some(p) => seq![':'] + dec(p as nat),
        None => seq![],
    }
}

/// The URL of a file transfer: `<scheme>://<host>[:<port>]<remote path>`.
pub open spec fn spec_ftp_url(protocol: FtpProtocol, host: Seq<char>, port: Option<u16>, remote_path: Seq<char>) -> Seq<char> {
    protocol.spec_scheme() + "://"@ + host + port_part(port) + remote_path
}

/// The URL of a file transfer.
pub fn ftp_url(protocol: FtpProtocol, host: &str, port: Option<u16>, remote_path: &str) -> (r: String)
    ensures
        r@ == spec_ftp_url(protocol, host@, port, remote_path@),
{
    let mut s = String::new();
    s.append(protocol.scheme());
    s.append("://");
    s.append(host);
    match port {
        Some(p) => {
            crate::text::push_char(&mut s, ':');
            push_decimal(&mut s, p as u64);
        },
        None => {},
    }
    s.append(remote_path);
    proof {
        reveal_strlit("://");
    }
    s
}

/// The credentials file handed to `curl`: `machine`, `login` and `password` lines.
pub fn netrc_content(host: &str, username: &str, password: &str) -> (r: String)
    ensures
        r@ == "machine "@ + host@ + "\nlogin "@ + username@ + "\npassword "@ + password@ + "\n"@,
{
    let mut s = String::new();
    s.append("machine ");
    s.append(host);
    s.append("\nlogin ");
    s.append(username);
    s.append("\npassword ");
    s.append(password);
    s.append("\n");
    s
}

/// The `curl` command line of a file transfer.
pub open spec fn spec_ftp_command(
    direction: TransferDirection,
    netrc_path: Seq<char>,
    url: Seq<char>,
    local_path: Seq<char>,
    windows: bool,
) -> Seq<char> {
    match direction {
        TransferDirection::Download => "curl --netrc-file "@ + esc(netrc_path, windows) + " "@ + esc(
            url,
            windows,
        ) + " -o "@ + esc(local_path, windows),
        TransferDirection::Upload => "curl --netrc-file "@ + esc(netrc_path, windows) + " -T "@
            + esc(local_path, windows) + " "@ + esc(url, windows),
    }
}

/// The `curl` command line of a file transfer.
pub fn ftp_command(
    direction: TransferDirection,
    netrc_path: &str,
    url: &str,
    local_path: &str,
    windows: bool,
) -> (r: String)
    ensures
        r@ == spec_ftp_command(direction, netrc_path@, url@, local_path@, windows),
{
    let mut s = String::new();
    s.append("curl --netrc-file ");
    s.append(shell_escape(netrc_path, windows).as_str());
    match direction {
        TransferDirection::Download => {
            s.append(" ");
            s.append(shell_escape(url, windows).as_str());
            s.append(" -o ");
            s.append(shell_escape(local_path, windows).as_str());
        },
        TransferDirection::Upload => {
            s.append(" -T ");
            s.append(shell_escape(local_path, windows).as_str());
            s.append(" ");
            s.append(shell_escape(url, windows).as_str());
        },
    }
    s
}

/// Each word, quoted, after a space.
pub open spec fn spaced_words(words: Seq<Seq<char>>, windows: bool) -> Seq<char>
    decreases words.len(),
{
    if words.len() == 0 {
        seq![]
    } else {
        spaced_words(words.drop_last(), windows) + seq![' '] + esc(words.last(), windows)
    }
}

fn push_spaced_words(s: &mut String, text: &str, windows: bool)
    ensures
        final(s)@ == old(s)@ + spaced_words(split_ws(text@), windows),
{
    let words = split_whitespace(chars_of(text).as_slice());
    let ghost ws = split_ws(text@);
    let ghost start = s@;
    let mut i: usize = 0;
    while i < words.len()
        invariant
            i <= words@.len(),
            words@.len() == ws.len(),
            forall|k: int| 0 <= k < words@.len() ==> #[trigger] words@[k]@ == ws[k],
            s@ == start + spaced_words(ws.take(i as int), windows),
        decreases words.len() - i,
    {
        assert(ws.take(i + 1).drop_last() =~= ws.take(i as int));
        let w = crate::text::string_from_chars(words[i].as_slice());
        crate::text::push_char(s, ' ');
        s.append(shell_escape(w.as_str(), windows).as_str());
        assert(s@ =~= start + spaced_words(ws.take(i + 1), windows));
        i = i + 1;
    }
    assert(ws.take(words@.len() as int) =~= ws);
}

/// The command line that publishes a Kafka message.
pub open spec fn spec_kafka_command(
    broker: Seq<char>,
    topic: Seq<char>,
    message: Seq<char>,
    key: Option<Seq<char>>,
    properties: Option<Seq<char>>,
    windows: bool,
) -> Seq<char> {
    (match key {
        None => "echo "@ + esc(message, windows) + " | kafka-console-producer --broker-list "@ + esc(
            broker,
            windows,
        ) + " --topic "@ + esc(topic, windows),
        Some(k) => "echo "@ + esc(k, windows) + ":"@ + esc(message, windows)
            + " | kafka-console-producer --broker-list "@ + esc(broker, windows) + " --topic "@
            + esc(topic, windows) + " --property parse.key=true --property key.separator=:"@,
    }) + match properties {
        Some(p) => spaced_words(split_ws(p), windows),
        None => seq![],
    }
}

/// The command line that publishes a Kafka message.
pub fn kafka_command(
    broker: &str,
    topic: &str,
    message: &str,
    key: Option<&str>,
    properties: Option<&str>,
    windows: bool,
) -> (r: String)
    ensures
        r@ == spec_kafka_command(
            broker@,
            topic@,
            message@,
            match key {
                Some(k) => Some(k@),
                None => None,
            },
            match properties {
                Some(p) => Some(p@),
                None => None,
            },
            windows,
        ),
{
    let mut s = String::new();
    s.append("echo ");
    match key {
        Some(k) => {
            s.append(shell_escape(k, windows).as_str());
            s.append(":");
        },
        None => {},
    }
    s.append(shell_escape(message, windows).as_str());
    s.append(" | kafka-console-producer --broker-list ");
    s.append(shell_escape(broker, windows).as_str());
    s.append(" --topic ");
    s.append(shell_escape(topic, windows).as_str());
    match key {
        Some(_) => s.append(" --property parse.key=true --property key.separator=:"),
        None => {},
    }
    match properties {
        Some(p) => push_spaced_words(&mut s, p, windows),
        None => {},
    }
    s
}

/// The command line that publishes a RabbitMQ message.
pub open spec fn spec_rabbitmq_command(
    url: Seq<char>,
    exchange: Seq<char>,
    routing_key: Seq<char>,
    message: Seq<char>,
    content_type: Option<Seq<char>>,
    windows: bool,
) -> Seq<char> {
    "amqp-publish --url "@ + esc(url, windows) + " --exchange "@ + esc(exchange, windows)
        + " --routing-key "@ + esc(routing_key, windows) + " --body "@ + esc(message, windows)
        + match content_type {
        Some(ct) => " --content-type "@ + esc(ct, windows),
        None => seq![],
    }
}

/// The command line that publishes a RabbitMQ message.
pub fn rabbitmq_command(
    url: &str,
    exchange: &str,
    routing_key: &str,
    message: &str,
    content_type: Option<&str>,
    windows: bool,
) -> (r: String)
    ensures
        r@ == spec_rabbitmq_command(
            url@,
            exchange@,
            routing_key@,
            message@,
            match content_type {
                Some(c) => Some(c@),
                None => None,
            },
            windows,
        ),
{
    let mut s = String::new();
    s.append("amqp-publish --url ");
    s.append(shell_escape(url, windows).as_str());
    s.append(" --exchange ");
    s.append(shell_escape(exchange, windows).as_str());
    s.append(" --routing-key ");
    s.append(shell_escape(routing_key, windows).as_str());
    s.append(" --body ");
    s.append(shell_escape(message, windows).as_str());
    match content_type {
        Some(ct) => {
            s.append(" --content-type ");
            s.append(shell_escape(ct, windows).as_str());
        },
        None => {},
    }
    s
}

/// A flag followed by a quoted value, where the value is given.
pub open spec fn opt_word(flag: Seq<char>, o: Option<Seq<char>>, windows: bool) -> Seq<char> {
    match o {
        Some(v) => flag + esc(v, windows),
        None => seq![],
    }
}

/// ` -q <qos>` where a QoS is given.
pub open spec fn qos_part(qos: Option<u8>) -> Seq<char> {
    match qos {
        Some(q) => " -q "@ + dec(q as nat),
        None => seq![],
    }
}

/// The options shared by the MQTT tools: QoS, user, password and client id,
/// each where given.
pub open spec fn mqtt_options(
    qos: Option<u8>,
    username: Option<Seq<char>>,
    password: Option<Seq<char>>,
    client_id: Option<Seq<char>>,
    windows: bool,
) -> Seq<char> {
    qos_part(qos) + opt_word(" -u "@, username, windows) + opt_word(" -P "@, password, windows)
        + opt_word(" -i "@, client_id, windows)
}

/// The text of an optional string slice.
pub open spec fn opt_str(o: Option<&str>) -> Option<Seq<char>> {
    match o {
        Some(s) => Some(s@),
        None => None,
    }
}

fn push_opt_word(s: &mut String, flag: &str, o: Option<&str>, windows: bool)
    ensures
        final(s)@ == old(s)@ + opt_word(flag@, opt_str(o), windows),
{
    match o {
        Some(v) => {
            s.append(flag);
            s.append(shell_escape(v, windows).as_str());
        },
        None => {},
    }
}

fn push_mqtt_options(
    s: &mut String,
    qos: Option<u8>,
    username: Option<&str>,
    password: Option<&str>,
    client_id: Option<&str>,
    windows: bool,
)
    ensures
        final(s)@ == old(s)@ + mqtt_options(qos, opt_str(username), opt_str(password), opt_str(client_id), windows),
{
    let ghost start = s@;
    match qos {
        Some(q) => {
            s.append(" -q ");
            push_decimal(s, q as u64);
        },
        None => {},
    }
    let ghost a = s@;
    assert(a =~= start + qos_part(qos));
    push_opt_word(s, " -u ", username, windows);
    let ghost b = s@;
    push_opt_word(s, " -P ", password, windows);
    let ghost c = s@;
    push_opt_word(s, " -i ", client_id, windows);
    assert(s@ =~= start + mqtt_options(qos, opt_str(username), opt_str(password), opt_str(client_id), windows));
}

/// The command line that publishes an MQTT message (port 1883 unless given).
pub open spec fn spec_mqtt_command(
    broker: Seq<char>,
    topic: Seq<char>,
    message: Seq<char>,
    port: Option<u16>,
    qos: Option<u8>,
    username: Option<Seq<char>>,
    password: Option<Seq<char>>,
    client_id: Option<Seq<char>>,
    windows: bool,
) -> Seq<char> {
    "mosquitto_pub -h "@ + esc(broker, windows) + " -p "@ + dec(
        match port {
            Some(p) => p as nat,
            None => 1883,
        },
    ) + " -t "@ + esc(topic, windows) + " -m "@ + esc(message, windows) + mqtt_options(
        qos,
        username,
        password,
        client_id,
        windows,
    )
}

/// The command line that publishes an MQTT message.
pub fn mqtt_command(
    broker: &str,
    topic: &str,
    message: &str,
    port: Option<u16>,
    qos: Option<u8>,
    username: Option<&str>,
    password: Option<&str>,
    client_id: Option<&str>,
    windows: bool,
) -> (r: String)
    ensures
        r@ == spec_mqtt_command(
            broker@,
            topic@,
            message@,
            port,
            qos,
            opt_str(username),
            opt_str(password),
            opt_str(client_id),
            windows,
        ),
{
    let p: u16 = match port {
        Some(p) => p,
        None => 1883,
    };
    let mut s = String::new();
    s.append("mosquitto_pub -h ");
    s.append(shell_escape(broker, windows).as_str());
    s.append(" -p ");
    push_decimal(&mut s, p as u64);
    s.append(" -t ");
    s.append(shell_escape(topic, windows).as_str());
    s.append(" -m ");
    s.append(shell_escape(message, windows).as_str());
    push_mqtt_options(&mut s, qos, username, password, client_id, windows);
    s
}

/// The command line that publishes to a Redis channel.
pub fn redis_command(url: &str, channel: &str, message: &str, windows: bool) -> (r: String)
    ensures
        r@ == "redis-cli -u "@ + esc(url@, windows) + " PUBLISH "@ + esc(channel@, windows) + " "@
            + esc(message@, windows),
{
    let mut s = String::new();
    s.append("redis-cli -u ");
    s.append(shell_escape(url, windows).as_str());
    s.append(" PUBLISH ");
    s.append(shell_escape(channel, windows).as_str());
    s.append(" ");
    s.append(shell_escape(message, windows).as_str());
    s
}

/// The time limit of a consuming task: the job's own, else 30 seconds.
pub fn consume_timeout(timeout_secs: Option<u64>) -> (r: Option<u64>)
    ensures
        r == (match timeout_secs {
            Some(t) => Some(t),
            None => Some(30u64),
        }),
{
    match timeout_secs {
        Some(t) => Some(t),
        None => Some(30),
    }
}

/// The command line that consumes Kafka messages (one unless a count is given),
/// from the beginning only when the offset is `earliest`.
pub open spec fn spec_kafka_consume_command(
    broker: Seq<char>,
    topic: Seq<char>,
    group_id: Option<Seq<char>>,
    max_messages: Option<u32>,
    offset: Option<Seq<char>>,
    windows: bool,
) -> Seq<char> {
    let n = match max_messages {
        Some(n) => n as nat,
        None => 1,
    };
    let from = match offset {
        Some(o) => o,
        None => "latest"@,
    };
    "kafka-console-consumer --bootstrap-server "@ + esc(broker, windows) + " --topic "@ + esc(
        topic,
        windows,
    ) + " --max-messages "@ + dec(n) + (if from == "earliest"@ {
        " --from-beginning"@
    } else {
        seq![]
    }) + match group_id {
        Some(g) => " --group "@ + esc(g, windows),
        None => seq![],
    }
}

/// The command line that consumes Kafka messages.
pub fn kafka_consume_command(
    broker: &str,
    topic: &str,
    group_id: Option<&str>,
    max_messages: Option<u32>,
    offset: Option<&str>,
    windows: bool,
) -> (r: String)
    ensures
        r@ == spec_kafka_consume_command(
            broker@,
            topic@,
            opt_str(group_id),
            max_messages,
            opt_str(offset),
            windows,
        ),
{
    let n: u32 = match max_messages {
        Some(n) => n,
        None => 1,
    };
    let from: &str = match offset {
        Some(o) => o,
        None => "latest",
    };
    let mut s = String::new();
    s.append("kafka-console-consumer --bootstrap-server ");
    s.append(shell_escape(broker, windows).as_str());
    s.append(" --topic ");
    s.append(shell_escape(topic, windows).as_str());
    s.append(" --max-messages ");
    push_decimal(&mut s, n as u64);
    if str_eq(from, "earliest") {
        s.append(" --from-beginning");
    }
    match group_id {
        Some(g) => {
            s.append(" --group ");
            s.append(shell_escape(g, windows).as_str());
        },
        None => {},
    }
    s
}

/// The command line that receives MQTT messages (port 1883 and one message unless
/// given).
pub open spec fn spec_mqtt_subscribe_command(
    broker: Seq<char>,
    topic: Seq<char>,
    port: Option<u16>,
    max_messages: Option<u32>,
    username: Option<Seq<char>>,
    password: Option<Seq<char>>,
    client_id: Option<Seq<char>>,
    qos: Option<u8>,
    windows: bool,
) -> Seq<char> {
    "mosquitto_sub -h "@ + esc(broker, windows) + " -p "@ + dec(
        match port {
            Some(p) => p as nat,
            None => 1883,
        },
    ) + " -t "@ + esc(topic, windows) + " -C "@ + dec(
        match max_messages {
            Some(n) => n as nat,
            None => 1,
        },
    ) + mqtt_options(qos, username, password, client_id, windows)
}

/// The command line that receives MQTT messages.
pub fn mqtt_subscribe_command(
    broker: &str,
    topic: &str,
    port: Option<u16>,
    max_messages: Option<u32>,
    username: Option<&str>,
    password: Option<&str>,
    client_id: Option<&str>,
    qos: Option<u8>,
    windows: bool,
) -> (r: String)
    ensures
        r@ == spec_mqtt_subscribe_command(
            broker@,
            topic@,
            port,
            max_messages,
            opt_str(username),
            opt_str(password),
            opt_str(client_id),
            qos,
            windows,
        ),
{
    let p: u16 = match port {
        Some(p) => p,
        None => 1883,
    };
    let n: u32 = match max_messages {
        Some(n) => n,
        None => 1,
    };
    let mut s = String::new();
    s.append("mosquitto_sub -h ");
    s.append(shell_escape(broker, windows).as_str());
    s.append(" -p ");
    push_decimal(&mut s, p as u64);
    s.append(" -t ");
    s.append(shell_escape(topic, windows).as_str());
    s.append(" -C ");
    push_decimal(&mut s, n as u64);
    push_mqtt_options(&mut s, qos, username, password, client_id, windows);
    s
}

/// The command line that consumes RabbitMQ messages (one unless a count is given).
pub fn rabbitmq_consume_command(url: &str, queue: &str, max_messages: Option<u32>, windows: bool) -> (r: String)
    ensures
        r@ == "amqp-consume --url "@ + esc(url@, windows) + " --queue "@ + esc(queue@, windows)
            + " -c "@ + dec(
            match max_messages {
                Some(n) => n as nat,
                None => 1,
            },
        ) + " cat"@,
{
    let n: u32 = match max_messages {
        Some(n) => n,
        None => 1,
    };
    let mut s = String::new();
    s.append("amqp-consume --url ");
    s.append(shell_escape(url, windows).as_str());
    s.append(" --queue ");
    s.append(shell_escape(queue, windows).as_str());
    s.append(" -c ");
    push_decimal(&mut s, n as u64);
    s.append(" cat");
    s
}

/// The command line that reads from Redis in the given mode (`lpop` unless `rpop`,
/// `subscribe` or `xread`; one item unless a count is given).
pub open spec fn spec_redis_read_command(
    url: Seq<char>,
    key: Seq<char>,
    mode: Option<Seq<char>>,
    count: Option<u32>,
    timeout_secs: Option<u64>,
    windows: bool,
) -> Seq<char> {
    let m = match mode {
        Some(m) => m,
        None => "lpop"@,
    };
    let n = dec(
        match count {
            Some(c) => c as nat,
            None => 1,
        },
    );
    let u = "redis-cli -u "@ + esc(url, windows);
    if m == "rpop"@ {
        u + " RPOP "@ + esc(key, windows) + " "@ + n
    } else if m == "subscribe"@ {
        u + " SUBSCRIBE "@ + esc(key, windows) + " &\nSUB_PID=$!; sleep "@ + dec(
            match timeout_secs {
                Some(t) => t as nat,
                None => 10,
            },
        ) + "; kill $SUB_PID 2>/dev/null"@
    } else if m == "xread"@ {
        u + " XREAD COUNT "@ + n + " STREAMS "@ + esc(key, windows) + " 0"@
    } else {
        u + " LPOP "@ + esc(key, windows) + " "@ + n
    }
}

/// The command line that reads from Redis.
pub fn redis_read_command(
    url: &str,
    key: &str,
    mode: Option<&str>,
    count: Option<u32>,
    timeout_secs: Option<u64>,
    windows: bool,
) -> (r: String)
    ensures
        r@ == spec_redis_read_command(url@, key@, opt_str(mode), count, timeout_secs, windows),
{
    let m: &str = match mode {
        Some(m) => m,
        None => "lpop",
    };
    let n: u64 = match count {
        Some(c) => c as u64,
        None => 1,
    };
    let mut s = String::new();
    s.append("redis-cli -u ");
    s.append(shell_escape(url, windows).as_str());
    if str_eq(m, "rpop") {
        s.append(" RPOP ");
        s.append(shell_escape(key, windows).as_str());
        s.append(" ");
        push_decimal(&mut s, n);
    } else if str_eq(m, "subscribe") {
        s.append(" SUBSCRIBE ");
        s.append(shell_escape(key, windows).as_str());
        s.append(" &\nSUB_PID=$!; sleep ");
        push_decimal(
            &mut s,
            match timeout_secs {
                Some(t) => t,
                None => 10,
            },
        );
        s.append("; kill $SUB_PID 2>/dev/null");
    } else if str_eq(m, "xread") {
        s.append(" XREAD COUNT ");
        push_decimal(&mut s, n);
        s.append(" STREAMS ");
        s.append(shell_escape(key, windows).as_str());
        s.append(" 0");
    } else {
        s.append(" LPOP ");
        s.append(shell_escape(key, windows).as_str());
        s.append(" ");
        push_decimal(&mut s, n);
    }
    s
}

/// The build arguments as they go into a `docker build` line: each word quoted and
/// joined by spaces when `quote` is set, else the text as given.
pub open spec fn build_args_text(build_args: Seq<char>, quote: bool, windows: bool) -> Seq<char> {
    if quote {
        join(split_ws(build_args).map_values(|w: Seq<char>| esc(w, windows)), " "@)
    } else {
        build_args
    }
}

/// The shell line that builds (and, if asked, runs) a Docker image from a
/// Dockerfile in `tmp_path`, then removes that directory and keeps the exit status.
pub open spec fn spec_docker_command(
    tag: Seq<char>,
    build_args: Seq<char>,
    quote_args: bool,
    tmp_path: Seq<char>,
    run_after_build: bool,
    windows: bool,
) -> Seq<char> {
    "docker build --progress=plain -t "@ + esc(tag, windows) + " "@ + build_args_text(
        build_args,
        quote_args,
        windows,
    ) + " -f "@ + esc(tmp_path, windows) + "/Dockerfile "@ + esc(tmp_path, windows) + (if run_after_build {
        " && docker run --rm "@ + esc(tag, windows)
    } else {
        seq![]
    }) + " ; RET=$?; rm -rf "@ + esc(tmp_path, windows) + "; exit $RET"@
}

fn quoted_words(text: &str, windows: bool) -> (r: String)
    ensures
        r@ == join(split_ws(text@).map_values(|w: Seq<char>| esc(w, windows)), " "@),
{
    let words = split_whitespace(chars_of(text).as_slice());
    let ghost ws = split_ws(text@);
    let mut quoted: Vec<String> = Vec::new();
    let mut i: usize = 0;
    while i < words.len()
        invariant
            i <= words@.len(),
            words@.len() == ws.len(),
            forall|k: int| 0 <= k < words@.len() ==> #[trigger] words@[k]@ == ws[k],
            quoted@.len() == i,
            forall|k: int| 0 <= k < i ==> #[trigger] quoted@[k]@ == esc(ws[k], windows),
        decreases words.len() - i,
    {
        let w = crate::text::string_from_chars(words[i].as_slice());
        quoted.push(shell_escape(w.as_str(), windows));
        i = i + 1;
    }
    assert(texts(quoted@) =~= ws.map_values(|w: Seq<char>| esc(w, windows)));
    crate::text::join_strings(&quoted, " ")
}

/// The shell line of a Docker build task.
pub fn docker_command(
    tag: &str,
    build_args: &str,
    quote_args: bool,
    tmp_path: &str,
    run_after_build: bool,
    windows: bool,
) -> (r: String)
    ensures
        r@ == spec_docker_command(tag@, build_args@, quote_args, tmp_path@, run_after_build, windows),
{
    let qtag = shell_escape(tag, windows);
    let qtmp = shell_escape(tmp_path, windows);
    let mut s = String::new();
    s.append("docker build --progress=plain -t ");
    s.append(qtag.as_str());
    s.append(" ");
    if quote_args {
        s.append(quoted_words(build_args, windows).as_str());
    } else {
        s.append(build_args);
    }
    s.append(" -f ");
    s.append(qtmp.as_str());
    s.append("/Dockerfile ");
    s.append(qtmp.as_str());
    if run_after_build {
        s.append(" && docker run --rm ");
        s.append(qtag.as_str());
    }
    s.append(" ; RET=$?; rm -rf ");
    s.append(qtmp.as_str());
    s.append("; exit $RET");
    s
}

} // verus!
