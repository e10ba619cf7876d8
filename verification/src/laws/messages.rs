//! Laws of messages in JSON.

use vstd::prelude::*;
use crate::cli::backend::json_opt_text;
use crate::common::message::{
    hex_digit, json_char, json_chars, json_opt_bool, json_opt_number, json_string,
    DiscoveryAnnounce, DiscoveryQuery, HandshakeRequest, QueryRequest, QueryResponse,
};
use crate::text::decimal;

verus! {

// ---------------------------------------------------------------------------
// Values

/// The number that a hexadecimal digit stands for.
pub open spec fn hex_value(c: char) -> int {
    if '0' <= c <= '9' {
        c as int - '0' as int
    } else {
        c as int - 'a' as int + 10
    }
}

/// A character in a JSON string: quotes and backslashes behind a backslash, control
/// characters by their short names or in four hexadecimal digits, others as they are.
pub proof fn law_json_character(c: char)
    ensures
        c == '"' ==> json_char(c) == seq!['\\', '"'],
        c == '\\' ==> json_char(c) == seq!['\\', '\\'],
        c == '\n' ==> json_char(c) == seq!['\\', 'n'],
        c == '\t' ==> json_char(c) == seq!['\\', 't'],
        c == '\r' ==> json_char(c) == seq!['\\', 'r'],
        c == '\x08' ==> json_char(c) == seq!['\\', 'b'],
        c == '\x0c' ==> json_char(c) == seq!['\\', 'f'],
        c >= ' ' && c != '"' && c != '\\' ==> json_char(c) == seq![c],
        c < ' ' && json_char(c).len() != 2 ==> {
            let t = json_char(c);
            &&& t.len() == 6
            &&& t.take(4) == seq!['\\', 'u', '0', '0']
            &&& 16 * hex_value(t[4]) + hex_value(t[5]) == c as int
        },
{
    let n = c as int;
    if c < ' ' && json_char(c).len() != 2 {
        let t = json_char(c);
        assert(t.take(4) =~= seq!['\\', 'u', '0', '0']);
        assert(0 <= n / 16 < 2 && 0 <= n % 16 < 16);
        assert(hex_value(hex_digit(n / 16)) == n / 16);
        assert(hex_value(hex_digit(n % 16)) == n % 16);
    }
}

/// A JSON string is its characters, one after the other, in double quotes.
pub proof fn law_json_string(s: Seq<char>, c: char)
    ensures
        json_string(s) == seq!['"'] + json_chars(s) + seq!['"'],
        json_chars(Seq::empty()) == Seq::<char>::empty(),
        json_chars(s.push(c)) == json_chars(s) + json_char(c),
{
    assert(s.push(c).drop_last() =~= s);
}

/// A text of plain characters is written as it is.
pub proof fn law_plain_json_string(s: Seq<char>)
    requires
        forall|i: int|
            0 <= i < s.len() ==> #[trigger] s[i] >= ' ' && s[i] != '"' && s[i] != '\\',
    ensures
        json_chars(s) == s,
    decreases s.len(),
{
    if s.len() > 0 {
        let t = s.drop_last();
        assert forall|i: int| 0 <= i < t.len() implies #[trigger] t[i] >= ' ' && t[i] != '"' && t[i]
            != '\\' by {
            assert(t[i] == s[i]);
        }
        law_plain_json_string(t);
        let c = s[s.len() - 1];
        assert(c >= ' ' && c != '"' && c != '\\');
        law_json_character(c);
        assert(s =~= t + seq![s.last()]);
    } else {
        assert(json_chars(s) =~= s);
    }
}

/// What is absent is written as `null`.
pub proof fn law_optional_json(n: nat, b: bool, s: Seq<char>)
    ensures
        json_opt_number(None) == "null"@,
        json_opt_number(Some(n)) == decimal(n),
        json_opt_bool(None) == "null"@,
        json_opt_bool(Some(true)) == "true"@,
        json_opt_bool(Some(false)) == "false"@,
        json_opt_text(None) == "null"@,
        json_opt_text(Some(s)) == json_string(s),
{
}

// ---------------------------------------------------------------------------
// Objects

/// A member of an object: its name in double quotes, a colon and its value.
pub open spec fn member(name: Seq<char>, value: Seq<char>) -> Seq<char> {
    seq!['"'] + name + seq!['"', ':'] + value
}

/// Members with commas between them.
pub open spec fn members(list: Seq<(Seq<char>, Seq<char>)>) -> Seq<char>
    decreases list.len(),
{
    if list.len() == 0 {
        Seq::empty()
    } else if list.len() == 1 {
        member(list[0].0, list[0].1)
    } else {
        members(list.drop_last()) + seq![','] + member(list.last().0, list.last().1)
    }
}

/// An object with the given members.
pub open spec fn object(list: Seq<(Seq<char>, Seq<char>)>) -> Seq<char> {
    seq!['{'] + members(list) + seq!['}']
}

proof fn lemma_first_member(open: Seq<char>, name: Seq<char>, value: Seq<char>)
    requires
        open == seq!['{', '"'] + name + seq!['"', ':'],
    ensures
        open + value == seq!['{'] + members(seq![(name, value)]),
{
    assert(open + value =~= seq!['{'] + member(name, value));
}

proof fn lemma_next_member(
    text: Seq<char>,
    list: Seq<(Seq<char>, Seq<char>)>,
    next: Seq<char>,
    name: Seq<char>,
    value: Seq<char>,
)
    requires
        list.len() > 0,
        text == seq!['{'] + members(list),
        next == seq![',', '"'] + name + seq!['"', ':'],
    ensures
        text + next + value == seq!['{'] + members(list.push((name, value))),
{
    let more = list.push((name, value));
    assert(more.drop_last() =~= list);
    assert(members(more) == members(list) + seq![','] + member(name, value));
    assert(text + next + value =~= seq!['{'] + members(more));
}

proof fn lemma_open()
    ensures
        "{\"version\":"@ == seq!['{', '"'] + "version"@ + seq!['"', ':'],
{
    reveal_strlit("{\"version\":");
    reveal_strlit("version");
    assert("{\"version\":"@ =~= seq!['{', '"'] + "version"@ + seq!['"', ':']);
}

proof fn lemma_next_hostname()
    ensures
        ",\"hostname\":"@ == seq![',', '"'] + "hostname"@ + seq!['"', ':'],
{
    reveal_strlit(",\"hostname\":");
    reveal_strlit("hostname");
    assert(",\"hostname\":"@ =~= seq![',', '"'] + "hostname"@ + seq!['"', ':']);
}

proof fn lemma_next_ip()
    ensures
        ",\"ip\":"@ == seq![',', '"'] + "ip"@ + seq!['"', ':'],
{
    reveal_strlit(",\"ip\":");
    reveal_strlit("ip");
    assert(",\"ip\":"@ =~= seq![',', '"'] + "ip"@ + seq!['"', ':']);
}

proof fn lemma_next_port()
    ensures
        ",\"port\":"@ == seq![',', '"'] + "port"@ + seq!['"', ':'],
{
    reveal_strlit(",\"port\":");
    reveal_strlit("port");
    assert(",\"port\":"@ =~= seq![',', '"'] + "port"@ + seq!['"', ':']);
}

proof fn lemma_next_tcp_port()
    ensures
        ",\"tcp_port\":"@ == seq![',', '"'] + "tcp_port"@ + seq!['"', ':'],
{
    reveal_strlit(",\"tcp_port\":");
    reveal_strlit("tcp_port");
    assert(",\"tcp_port\":"@ =~= seq![',', '"'] + "tcp_port"@ + seq!['"', ':']);
}

proof fn lemma_next_kcp_port()
    ensures
        ",\"kcp_port\":"@ == seq![',', '"'] + "kcp_port"@ + seq!['"', ':'],
{
    reveal_strlit(",\"kcp_port\":");
    reveal_strlit("kcp_port");
    assert(",\"kcp_port\":"@ =~= seq![',', '"'] + "kcp_port"@ + seq!['"', ':']);
}

proof fn lemma_next_udp_port()
    ensures
        ",\"udp_port\":"@ == seq![',', '"'] + "udp_port"@ + seq!['"', ':'],
{
    reveal_strlit(",\"udp_port\":");
    reveal_strlit("udp_port");
    assert(",\"udp_port\":"@ =~= seq![',', '"'] + "udp_port"@ + seq!['"', ':']);
}

proof fn lemma_next_ttl()
    ensures
        ",\"ttl\":"@ == seq![',', '"'] + "ttl"@ + seq!['"', ':'],
{
    reveal_strlit(",\"ttl\":");
    reveal_strlit("ttl");
    assert(",\"ttl\":"@ =~= seq![',', '"'] + "ttl"@ + seq!['"', ':']);
}

proof fn lemma_next_load()
    ensures
        ",\"load\":"@ == seq![',', '"'] + "load"@ + seq!['"', ':'],
{
    reveal_strlit(",\"load\":");
    reveal_strlit("load");
    assert(",\"load\":"@ =~= seq![',', '"'] + "load"@ + seq!['"', ':']);
}

proof fn lemma_next_degraded()
    ensures
        ",\"degraded\":"@ == seq![',', '"'] + "degraded"@ + seq!['"', ':'],
{
    reveal_strlit(",\"degraded\":");
    reveal_strlit("degraded");
    assert(",\"degraded\":"@ =~= seq![',', '"'] + "degraded"@ + seq!['"', ':']);
}

proof fn lemma_next_request_id()
    ensures
        ",\"request_id\":"@ == seq![',', '"'] + "request_id"@ + seq!['"', ':'],
{
    reveal_strlit(",\"request_id\":");
    reveal_strlit("request_id");
    assert(",\"request_id\":"@ =~= seq![',', '"'] + "request_id"@ + seq!['"', ':']);
}

proof fn lemma_close()
    ensures
        "}"@ == seq!['}'],
{
    reveal_strlit("}");
    assert("}"@ =~= seq!['}']);
}

/// A handshake request in JSON: its version.
pub proof fn law_handshake_request_in_json(m: HandshakeRequest)
    ensures
        m.spec_json() == object(
            seq![
                ("version"@, decimal(m.version as nat)),
            ],
        ),
{
    lemma_open();
    lemma_close();
    let v0 = decimal(m.version as nat);
    let l0 = seq![("version"@, v0)];
    let t0 = "{\"version\":"@ + v0;
    lemma_first_member("{\"version\":"@, "version"@, v0);
    assert(l0 =~= seq![
        ("version"@, decimal(m.version as nat)),
    ]);
    assert(m.spec_json() == t0 + "}"@);
}

/// A discovery query in JSON: its version.
pub proof fn law_discovery_query_in_json(m: DiscoveryQuery)
    ensures
        m.spec_json() == object(
            seq![
                ("version"@, decimal(m.version as nat)),
            ],
        ),
{
    lemma_open();
    lemma_close();
    let v0 = decimal(m.version as nat);
    let l0 = seq![("version"@, v0)];
    let t0 = "{\"version\":"@ + v0;
    lemma_first_member("{\"version\":"@, "version"@, v0);
    assert(l0 =~= seq![
        ("version"@, decimal(m.version as nat)),
    ]);
    assert(m.spec_json() == t0 + "}"@);
}

/// A query in JSON: its version and its number.
pub proof fn law_query_request_in_json(m: QueryRequest)
    ensures
        m.spec_json() == object(
            seq![
                ("version"@, decimal(m.version as nat)),
                ("request_id"@, decimal(m.request_id as nat)),
            ],
        ),
{
    lemma_open();
    lemma_close();
    let v0 = decimal(m.version as nat);
    let l0 = seq![("version"@, v0)];
    let t0 = "{\"version\":"@ + v0;
    lemma_first_member("{\"version\":"@, "version"@, v0);
    let v1 = decimal(m.request_id as nat);
    let l1 = l0.push(("request_id"@, v1));
    let t1 = t0 + ",\"request_id\":"@ + v1;
    lemma_next_request_id();
    lemma_next_member(t0, l0, ",\"request_id\":"@, "request_id"@, v1);
    assert(l1 =~= seq![
        ("version"@, decimal(m.version as nat)),
        ("request_id"@, decimal(m.request_id as nat)),
    ]);
    assert(m.spec_json() == t1 + "}"@);
}

/// A number that may be absent.
pub open spec fn if_given(n: Option<u16>) -> Seq<char> {
    match n {
        Some(v) => decimal(v as nat),
        None => "null"@,
    }
}

/// A byte that may be absent.
pub open spec fn byte_if_given(n: Option<u8>) -> Seq<char> {
    match n {
        Some(v) => decimal(v as nat),
        None => "null"@,
    }
}

/// An announcement in JSON: every one of its fields, under its name.
pub proof fn law_announcement_in_json(m: DiscoveryAnnounce)
    ensures
        m.spec_json() == object(
            seq![
                ("version"@, decimal(m.version as nat)),
                ("hostname"@, json_string(m.hostname@)),
                ("ip"@, json_string(m.ip@)),
                ("port"@, decimal(m.port as nat)),
                ("tcp_port"@, if_given(m.tcp_port)),
                ("kcp_port"@, if_given(m.kcp_port)),
                ("udp_port"@, if_given(m.udp_port)),
                ("ttl"@, if_given(m.ttl)),
                ("load"@, byte_if_given(m.load)),
                ("degraded"@, json_opt_bool(m.degraded)),
            ],
        ),
{
    lemma_open();
    lemma_close();
    let v0 = decimal(m.version as nat);
    let l0 = seq![("version"@, v0)];
    let t0 = "{\"version\":"@ + v0;
    lemma_first_member("{\"version\":"@, "version"@, v0);
    let v1 = json_string(m.hostname@);
    let l1 = l0.push(("hostname"@, v1));
    let t1 = t0 + ",\"hostname\":"@ + v1;
    lemma_next_hostname();
    lemma_next_member(t0, l0, ",\"hostname\":"@, "hostname"@, v1);
    let v2 = json_string(m.ip@);
    let l2 = l1.push(("ip"@, v2));
    let t2 = t1 + ",\"ip\":"@ + v2;
    lemma_next_ip();
    lemma_next_member(t1, l1, ",\"ip\":"@, "ip"@, v2);
    let v3 = decimal(m.port as nat);
    let l3 = l2.push(("port"@, v3));
    let t3 = t2 + ",\"port\":"@ + v3;
    lemma_next_port();
    lemma_next_member(t2, l2, ",\"port\":"@, "port"@, v3);
    let v4 = if_given(m.tcp_port);
    let l4 = l3.push(("tcp_port"@, v4));
    let t4 = t3 + ",\"tcp_port\":"@ + v4;
    lemma_next_tcp_port();
    lemma_next_member(t3, l3, ",\"tcp_port\":"@, "tcp_port"@, v4);
    let v5 = if_given(m.kcp_port);
    let l5 = l4.push(("kcp_port"@, v5));
    let t5 = t4 + ",\"kcp_port\":"@ + v5;
    lemma_next_kcp_port();
    lemma_next_member(t4, l4, ",\"kcp_port\":"@, "kcp_port"@, v5);
    let v6 = if_given(m.udp_port);
    let l6 = l5.push(("udp_port"@, v6));
    let t6 = t5 + ",\"udp_port\":"@ + v6;
    lemma_next_udp_port();
    lemma_next_member(t5, l5, ",\"udp_port\":"@, "udp_port"@, v6);
    let v7 = if_given(m.ttl);
    let l7 = l6.push(("ttl"@, v7));
    let t7 = t6 + ",\"ttl\":"@ + v7;
    lemma_next_ttl();
    lemma_next_member(t6, l6, ",\"ttl\":"@, "ttl"@, v7);
    let v8 = byte_if_given(m.load);
    let l8 = l7.push(("load"@, v8));
    let t8 = t7 + ",\"load\":"@ + v8;
    lemma_next_load();
    lemma_next_member(t7, l7, ",\"load\":"@, "load"@, v8);
    let v9 = json_opt_bool(m.degraded);
    let l9 = l8.push(("degraded"@, v9));
    let t9 = t8 + ",\"degraded\":"@ + v9;
    lemma_next_degraded();
    lemma_next_member(t8, l8, ",\"degraded\":"@, "degraded"@, v9);
    assert(l9 =~= seq![
        ("version"@, decimal(m.version as nat)),
        ("hostname"@, json_string(m.hostname@)),
        ("ip"@, json_string(m.ip@)),
        ("port"@, decimal(m.port as nat)),
        ("tcp_port"@, if_given(m.tcp_port)),
        ("kcp_port"@, if_given(m.kcp_port)),
        ("udp_port"@, if_given(m.udp_port)),
        ("ttl"@, if_given(m.ttl)),
        ("load"@, byte_if_given(m.load)),
        ("degraded"@, json_opt_bool(m.degraded)),
    ]);
    assert(m.spec_json() == t9 + "}"@);
}

/// The answer to a query in JSON: its version, its number, its status and the name of
/// its error, or `null` where it has none.
pub proof fn law_query_response_in_json(m: QueryResponse)
    ensures
        m.spec_json() == object(
            seq![
                ("version"@, decimal(m.version as nat)),
                ("request_id"@, decimal(m.request_id as nat)),
                (
                    "status"@,
                    if m.status is Success {
                        seq!['"', 'O', 'k', '"']
                    } else {
                        seq!['"', 'E', 'r', 'r', 'o', 'r', '"']
                    },
                ),
                (
                    "error"@,
                    if m.error is Some {
                        seq!['"'] + m.error->0.spec_name() + seq!['"']
                    } else {
                        "null"@
                    },
                ),
            ],
        ),
{
    lemma_open();
    lemma_close();
    lemma_next_request_id();
    let v0 = decimal(m.version as nat);
    let l0 = seq![("version"@, v0)];
    let t0 = "{\"version\":"@ + v0;
    lemma_first_member("{\"version\":"@, "version"@, v0);
    let v1 = decimal(m.request_id as nat);
    let l1 = l0.push(("request_id"@, v1));
    let t1 = t0 + ",\"request_id\":"@ + v1;
    lemma_next_member(t0, l0, ",\"request_id\":"@, "request_id"@, v1);
    reveal_strlit(",\"status\":\"");
    reveal_strlit("\",\"error\":");
    reveal_strlit("\"");
    reveal_strlit("status");
    reveal_strlit("error");
    reveal_strlit("Ok");
    reveal_strlit("Error");
    assert("\""@ =~= seq!['"']);
    let name = m.status.spec_name();
    let v2 = if m.status is Success {
        seq!['"', 'O', 'k', '"']
    } else {
        seq!['"', 'E', 'r', 'r', 'o', 'r', '"']
    };
    assert(v2 =~= seq!['"'] + name + seq!['"']);
    let n2 = seq![',', '"'] + "status"@ + seq!['"', ':'];
    let l2 = l1.push(("status"@, v2));
    lemma_next_member(t1, l1, n2, "status"@, v2);
    let t2 = t1 + n2 + v2;
    let v3 = if m.error is Some {
        seq!['"'] + m.error->0.spec_name() + seq!['"']
    } else {
        "null"@
    };
    let n3 = seq![',', '"'] + "error"@ + seq!['"', ':'];
    let l3 = l2.push(("error"@, v3));
    lemma_next_member(t2, l2, n3, "error"@, v3);
    let a = ",\"status\":\""@;
    let b = "\",\"error\":"@;
    assert(a =~= n2 + seq!['"']);
    assert(b =~= seq!['"'] + n3);
    let mid = a + name + b;
    assert(mid =~= n2 + v2 + n3);
    assert(t1 + a + name + b =~= t1 + mid);
    assert(t2 + n3 =~= t1 + (n2 + v2 + n3));
    assert(l3 =~= seq![
        ("version"@, v0),
        ("request_id"@, v1),
        ("status"@, v2),
        ("error"@, v3),
    ]);
    assert(m.spec_json() == t1 + a + name + b + v3 + "}"@);
}

} // verus!
